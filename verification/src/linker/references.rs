use vstd::prelude::*;
use crate::codegen::fragment;
use crate::codegen::types::Instruction;
use crate::linker::error::ErrorView;
use crate::linker::linked;
use crate::linker::linker::{
    checked_names, decl_of, index_of_name, initial_state, linked_all, linked_call,
    linked_fragments, linked_function, linked_instrs, resolved_name, Fragments, LinkState,
};
use crate::util::bimap::name_of;

verus! {

/// The references table of the function names the callee of every open call.
pub open spec fn closed(f: fragment::FunDeclView) -> bool {
    forall|i: int|
        0 <= i < f.implementation.body.len() ==> match #[trigger] f.implementation.body[i] {
            fragment::Instr::Call(c) => name_of(f.refs, c.fun.id).is_some(),
            fragment::Instr::Raw(_) => true,
        }
}

/// Every fragment is closed.
pub open spec fn all_closed(frags: Fragments) -> bool {
    forall|i: int| 0 <= i < frags.len() ==> closed(decl_of(#[trigger] frags[i]))
}

/// The result is no error about a missing reference.
pub open spec fn no_reference_missing<T>(r: Result<T, ErrorView>) -> bool {
    match r {
        Err(ErrorView::MissingReference { .. }) => false,
        _ => true,
    }
}

proof fn lemma_index_in_range(frags: Fragments, name: Seq<char>, from: nat)
    ensures
        match index_of_name(frags, name, from) {
            Some(j) => from <= j < frags.len(),
            None => true,
        },
    decreases frags.len() - from,
{
    if from < frags.len() {
        lemma_index_in_range(frags, name, from + 1);
    }
}

proof fn lemma_names(frags: Fragments, k: nat)
    ensures
        no_reference_missing(checked_names(frags, k)),
    decreases frags.len() - k,
{
    if k < frags.len() {
        lemma_names(frags, k + 1);
    }
}

proof fn lemma_resolved(frags: Fragments, st: LinkState, name: Seq<char>, fuel: nat)
    requires
        all_closed(frags),
    ensures
        no_reference_missing(resolved_name(frags, st, name, fuel)),
    decreases fuel, 1nat, 0nat,
{
    lemma_index_in_range(frags, name, 0);
    match index_of_name(frags, name, 0) {
        None => {},
        Some(j) => {
            if !(j >= st.started.len() || st.started[j as int] || fuel == 0) {
                lemma_function(frags, st, j, (fuel - 1) as nat);
            }
        },
    }
}

proof fn lemma_instrs(
    frags: Fragments,
    st: LinkState,
    i: nat,
    k: nat,
    acc: Seq<linked::Instr>,
    fuel: nat,
)
    requires
        all_closed(frags),
        i < frags.len(),
    ensures
        no_reference_missing(linked_instrs(frags, st, i, k, acc, fuel)),
    decreases fuel, 3nat, decl_of(frags[i as int]).implementation.body.len() - k,
{
    let f = decl_of(frags[i as int]);
    let body = f.implementation.body;
    if k < body.len() {
        assert(closed(f));
        match body[k as int] {
            fragment::Instr::Raw(r) => {
                lemma_instrs(frags, st, i, k + 1, acc.push(linked::Instr { instr: r }), fuel);
            },
            fragment::Instr::Call(c) => {
                let name = name_of(f.refs, c.fun.id)->Some_0;
                assert(linked_call(frags, st, i, c, fuel) == resolved_name(frags, st, name, fuel));
                lemma_resolved(frags, st, name, fuel);
                match linked_call(frags, st, i, c, fuel) {
                    Err(_) => {},
                    Ok((st2, j)) => {
                        lemma_instrs(
                            frags,
                            st2,
                            i,
                            k + 1,
                            acc.push(linked::Instr { instr: Instruction::Call(j) }),
                            fuel,
                        );
                    },
                }
            },
        }
    }
}

proof fn lemma_function(frags: Fragments, st: LinkState, i: nat, fuel: nat)
    requires
        all_closed(frags),
        i < frags.len(),
    ensures
        no_reference_missing(linked_function(frags, st, i, fuel)),
    decreases fuel, 4nat, 0nat,
{
    let st1 = LinkState { started: st.started.update(i as int, true), funs: st.funs };
    lemma_instrs(frags, st1, i, 0, Seq::empty(), fuel);
}

proof fn lemma_all(frags: Fragments, st: LinkState, i: nat, fuel: nat)
    requires
        all_closed(frags),
    ensures
        no_reference_missing(linked_all(frags, st, i, fuel)),
    decreases frags.len() - i,
{
    if i < frags.len() {
        if i < st.started.len() && st.started[i as int] {
            lemma_all(frags, st, i + 1, fuel);
        } else {
            lemma_function(frags, st, i, fuel);
            match linked_function(frags, st, i, fuel) {
                Err(_) => {},
                Ok(st2) => {
                    lemma_all(frags, st2, i + 1, fuel);
                },
            }
        }
    }
}

/// Where the references table of every fragment names the callees of its
/// open calls, linking never fails for want of a reference.
pub proof fn lemma_closed_fragments_find_their_references(frags: Fragments)
    requires
        all_closed(frags),
    ensures
        no_reference_missing(linked_fragments(frags)),
{
    lemma_names(frags, 0);
    lemma_all(frags, initial_state(frags.len()), 0, frags.len());
}

} // verus!
