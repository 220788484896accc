use vstd::prelude::*;
use crate::codegen::fragment;
use crate::codegen::types::Instruction;
use crate::linker::error::ErrorView;
use crate::linker::linked;
use crate::linker::linker::{
    checked_names, decl_of, index_of_name, initial_state, linked_all, linked_call,
    linked_fragments, linked_function, linked_instrs, place_of, resolved_name, Fragments,
    LinkState,
};
use crate::util::ax::Ax;
use crate::util::bimap::name_of;

verus! {

/// The index of the function that the open call `c` of the function `f`
/// calls: the references table of `f` gives the name, the program the index.
pub open spec fn callee_index(frags: Fragments, f: fragment::FunDeclView, c: fragment::Call) -> Option<
    nat,
> {
    match name_of(f.refs, c.fun.id) {
        None => None,
        Some(name) => index_of_name(frags, name, 0),
    }
}

/// An instruction as linking leaves it: an open call calls by index.
pub open spec fn rewritten_instr(frags: Fragments, f: fragment::FunDeclView, i: fragment::Instr) -> linked::Instr {
    match i {
        fragment::Instr::Raw(r) => linked::Instr { instr: r },
        fragment::Instr::Call(c) => linked::Instr {
            instr: Instruction::Call(callee_index(frags, f, c)->Some_0 as u32),
        },
    }
}

/// Every open call of function `i` has a callee in the program.
pub open spec fn resolves(frags: Fragments, i: int) -> bool {
    let f = decl_of(frags[i]);
    forall|k: int|
        0 <= k < f.implementation.body.len() ==> match #[trigger] f.implementation.body[k] {
            fragment::Instr::Call(c) => callee_index(frags, f, c).is_some(),
            fragment::Instr::Raw(_) => true,
        }
}

/// Function `i` as linking leaves it: only its open calls change.
pub open spec fn rewritten(frags: Fragments, i: int) -> linked::FunDeclView {
    let f = decl_of(frags[i]);
    linked::FunDeclView {
        name: f.name,
        export: f.export,
        implementation: linked::FunImplView {
            params: f.implementation.params,
            slots: f.implementation.slots,
            body: Seq::new(
                f.implementation.body.len(),
                |k: int| rewritten_instr(frags, f, f.implementation.body[k]),
            ),
        },
    }
}

/// Function `j`, if the state holds it linked, is linked as `rewritten` says,
/// and all its calls resolve.
pub open spec fn right(frags: Fragments, st: LinkState, j: int) -> bool {
    st.funs[j].is_some() ==> st.funs[j] == Some(rewritten(frags, j)) && resolves(frags, j)
}

/// What holds of the linker's state at every step: every function that is
/// linked is linked right.
pub open spec fn coherent(frags: Fragments, st: LinkState) -> bool {
    &&& st.started.len() == frags.len()
    &&& st.funs.len() == frags.len()
    &&& forall|j: int| 0 <= j < frags.len() ==> right(frags, st, j)
}

/// From `a` to `b` function `j` does not change if it has started, and is
/// linked if it starts.
pub open spec fn kept(a: LinkState, b: LinkState, j: int) -> bool {
    &&& a.started[j] ==> b.started[j] && b.funs[j] == a.funs[j]
    &&& !a.started[j] && b.started[j] ==> b.funs[j].is_some()
}

/// From `a` to `b` no started function changes, and every function that
/// starts is linked.
pub open spec fn advances(a: LinkState, b: LinkState) -> bool {
    forall|j: int| 0 <= j < a.started.len() ==> kept(a, b, j)
}

proof fn lemma_index_in_range(frags: Fragments, name: Seq<char>, from: nat)
    ensures
        match index_of_name(frags, name, from) {
            Some(j) => from <= j < frags.len(),
            None => true,
        },
    decreases frags.len() - from,
{
    if from < frags.len() {
        lemma_index_in_range(frags, name, from + 1);
    }
}

proof fn lemma_resolved(frags: Fragments, st: LinkState, name: Seq<char>, fuel: nat)
    requires
        coherent(frags, st),
    ensures
        match resolved_name(frags, st, name, fuel) {
            Ok((st2, ix)) => coherent(frags, st2) && advances(st, st2) && index_of_name(
                frags,
                name,
                0,
            ).is_some() && ix == index_of_name(frags, name, 0)->Some_0 as u32,
            Err(_) => true,
        },
    decreases fuel, 1nat, 0nat,
{
    lemma_index_in_range(frags, name, 0);
    match index_of_name(frags, name, 0) {
        None => {},
        Some(j) => {
            if !(j >= st.started.len() || st.started[j as int] || fuel == 0) {
                lemma_function(frags, st, j, (fuel - 1) as nat);
            }
        },
    }
}

proof fn lemma_instrs(
    frags: Fragments,
    st: LinkState,
    i: nat,
    k: nat,
    acc: Seq<linked::Instr>,
    fuel: nat,
)
    requires
        coherent(frags, st),
        i < frags.len(),
        k <= decl_of(frags[i as int]).implementation.body.len(),
        acc.len() == k,
        forall|m: int|
            0 <= m < k ==> #[trigger] acc[m] == rewritten_instr(
                frags,
                decl_of(frags[i as int]),
                decl_of(frags[i as int]).implementation.body[m],
            ),
        forall|m: int|
            0 <= m < k ==> match #[trigger] decl_of(frags[i as int]).implementation.body[m] {
                fragment::Instr::Call(c) => callee_index(frags, decl_of(frags[i as int]), c).is_some(),
                fragment::Instr::Raw(_) => true,
            },
    ensures
        match linked_instrs(frags, st, i, k, acc, fuel) {
            Ok((st2, out)) => coherent(frags, st2) && advances(st, st2) && out == rewritten(
                frags,
                i as int,
            ).implementation.body && resolves(frags, i as int),
            Err(_) => true,
        },
    decreases fuel, 3nat, decl_of(frags[i as int]).implementation.body.len() - k,
{
    let f = decl_of(frags[i as int]);
    let body = f.implementation.body;
    if k < body.len() {
        match body[k as int] {
            fragment::Instr::Raw(r) => {
                let next = acc.push(linked::Instr { instr: r });
                assert forall|m: int| 0 <= m < k + 1 implies #[trigger] next[m] == rewritten_instr(
                    frags,
                    f,
                    body[m],
                ) by {
                    if m < k {
                        assert(next[m] == acc[m]);
                    }
                }
                lemma_instrs(frags, st, i, k + 1, next, fuel);
            },
            fragment::Instr::Call(c) => {
                match name_of(f.refs, c.fun.id) {
                    None => {},
                    Some(name) => {
                        lemma_resolved(frags, st, name, fuel);
                        match linked_call(frags, st, i, c, fuel) {
                            Err(_) => {},
                            Ok((st2, j)) => {
                                let next = acc.push(linked::Instr { instr: Instruction::Call(j) });
                                assert forall|m: int| 0 <= m < k + 1 implies #[trigger] next[m]
                                    == rewritten_instr(frags, f, body[m]) by {
                                    if m < k {
                                        assert(next[m] == acc[m]);
                                    }
                                }
                                lemma_instrs(frags, st2, i, k + 1, next, fuel);
                                match linked_instrs(frags, st2, i, k + 1, next, fuel) {
                                    Err(_) => {},
                                    Ok((st3, _)) => {
                                        lemma_advances_twice(st, st2, st3);
                                    },
                                }
                            },
                        }
                    },
                }
            },
        }
    } else {
        assert(acc =~= rewritten(frags, i as int).implementation.body);
    }
}

proof fn lemma_advances_twice(a: LinkState, b: LinkState, c: LinkState)
    requires
        advances(a, b),
        advances(b, c),
        a.started.len() == b.started.len(),
    ensures
        advances(a, c),
{
    assert forall|j: int| 0 <= j < a.started.len() implies kept(a, c, j) by {
        assert(kept(a, b, j));
        assert(kept(b, c, j));
    }
}

proof fn lemma_function(frags: Fragments, st: LinkState, i: nat, fuel: nat)
    requires
        coherent(frags, st),
        i < frags.len(),
        !st.started[i as int],
    ensures
        match linked_function(frags, st, i, fuel) {
            Ok(st2) => coherent(frags, st2) && advances(st, st2) && st2.started[i as int]
                && st2.funs[i as int].is_some(),
            Err(_) => true,
        },
    decreases fuel, 4nat, 0nat,
{
    let st1 = LinkState { started: st.started.update(i as int, true), funs: st.funs };
    assert forall|j: int| 0 <= j < frags.len() implies right(frags, st1, j) by {
        assert(right(frags, st, j));
    }
    lemma_instrs(frags, st1, i, 0, Seq::empty(), fuel);
    match linked_instrs(frags, st1, i, 0, Seq::empty(), fuel) {
        Err(_) => {},
        Ok((st2, body)) => {
            let st3 = linked_function(frags, st, i, fuel)->Ok_0;
            assert(st3.started == st2.started);
            assert(st3.funs == st2.funs.update(i as int, Some(rewritten(frags, i as int))));
            assert(kept(st1, st2, i as int));
            assert forall|j: int| 0 <= j < frags.len() implies right(frags, st3, j) by {
                assert(right(frags, st2, j));
            }
            assert forall|j: int| 0 <= j < st.started.len() implies kept(st, st3, j) by {
                assert(kept(st1, st2, j));
            }
        },
    }
}

proof fn lemma_all(frags: Fragments, st: LinkState, i: nat, fuel: nat)
    requires
        coherent(frags, st),
        forall|j: int| 0 <= j < i && j < frags.len() ==> st.started[j],
        forall|j: int| 0 <= j < frags.len() && st.started[j] ==> st.funs[j].is_some(),
    ensures
        match linked_all(frags, st, i, fuel) {
            Ok(st2) => coherent(frags, st2) && forall|j: int|
                0 <= j < frags.len() ==> st2.funs[j].is_some(),
            Err(_) => true,
        },
    decreases frags.len() - i,
{
    if i < frags.len() {
        if st.started[i as int] {
            lemma_all(frags, st, i + 1, fuel);
        } else {
            lemma_function(frags, st, i, fuel);
            match linked_function(frags, st, i, fuel) {
                Err(_) => {},
                Ok(st2) => {
                    assert forall|j: int| 0 <= j < frags.len() && st2.started[j] implies st2.funs[j].is_some() by {
                        assert(kept(st, st2, j));
                    }
                    assert forall|j: int| 0 <= j < i + 1 && j < frags.len() implies st2.started[j] by {
                        assert(kept(st, st2, j));
                    }
                    lemma_all(frags, st2, i + 1, fuel);
                },
            }
        }
    } else {
        assert forall|j: int| 0 <= j < frags.len() implies st.funs[j].is_some() by {
            assert(st.started[j]);
        }
    }
}

proof fn lemma_names_differ(frags: Fragments, k: nat)
    ensures
        checked_names(frags, k) is Ok ==> forall|i: int|
            k <= i < frags.len() ==> index_of_name(frags, decl_of(#[trigger] frags[i]).name.v, 0)
                == Some(i as nat),
    decreases frags.len() - k,
{
    if k < frags.len() {
        lemma_names_differ(frags, k + 1);
        lemma_index_found(frags, decl_of(frags[k as int]).name.v, k as int, 0);
    }
}

proof fn lemma_index_found(frags: Fragments, name: Seq<char>, i: int, from: nat)
    requires
        0 <= from <= i < frags.len(),
        decl_of(frags[i]).name.v == name,
    ensures
        match index_of_name(frags, name, from) {
            Some(j) => from <= j <= i,
            None => false,
        },
    decreases i - from,
{
    if from < i {
        lemma_index_found(frags, name, i, from + 1);
    }
}

/// What linking yields, said without the order in which it goes about it:
/// where fragments link, no two of them have one name, every open call has a
/// callee, and function `i` of the module is fragment `i` with the index of
/// the callee in each open call.
pub proof fn lemma_linking_rewrites_calls(frags: Fragments)
    ensures
        match linked_fragments(frags) {
            Ok(m) => {
                &&& m.statements.len() == frags.len()
                &&& forall|i: int|
                    0 <= i < frags.len() ==> #[trigger] m.statements[i]
                        == linked::TopLevelStmtView::FunDecl(
                        Ax { a: place_of(frags[i]), v: rewritten(frags, i) },
                    )
                &&& forall|i: int| 0 <= i < frags.len() ==> resolves(frags, i)
                &&& forall|i: int|
                    0 <= i < frags.len() ==> index_of_name(
                        frags,
                        decl_of(#[trigger] frags[i]).name.v,
                        0,
                    ) == Some(i as nat)
            },
            Err(_) => true,
        },
{
    lemma_names_differ(frags, 0);
    let st0 = initial_state(frags.len());
    assert forall|j: int| 0 <= j < frags.len() implies right(frags, st0, j) by {
        assert(st0.funs[j].is_none());
    }
    lemma_all(frags, st0, 0, frags.len());
    match linked_fragments(frags) {
        Err(_) => {},
        Ok(m) => {
            let st = linked_all(frags, st0, 0, frags.len())->Ok_0;
            assert(checked_names(frags, 0) is Ok);
            assert(m.statements.len() == frags.len());
            assert forall|i: int| 0 <= i < frags.len() implies resolves(frags, i) by {
                assert(st.funs[i].is_some());
                assert(right(frags, st, i));
            }
            assert forall|i: int| 0 <= i < frags.len() implies #[trigger] m.statements[i]
                == linked::TopLevelStmtView::FunDecl(
                Ax { a: place_of(frags[i]), v: rewritten(frags, i) },
            ) by {
                assert(st.funs[i].is_some());
                assert(right(frags, st, i));
            }
        },
    }
}

/// The result is no error about a name that some fragment has.
pub open spec fn names_only_the_undefined<T>(frags: Fragments, r: Result<T, ErrorView>) -> bool {
    match r {
        Err(ErrorView::UnresolvedName(name)) => index_of_name(frags, name, 0).is_none(),
        _ => true,
    }
}

proof fn lemma_names_checked(frags: Fragments, k: nat)
    ensures
        names_only_the_undefined(frags, checked_names(frags, k)),
    decreases frags.len() - k,
{
    if k < frags.len() {
        lemma_names_checked(frags, k + 1);
    }
}

proof fn lemma_resolved_undefined(frags: Fragments, st: LinkState, name: Seq<char>, fuel: nat)
    ensures
        names_only_the_undefined(frags, resolved_name(frags, st, name, fuel)),
    decreases fuel, 1nat, 0nat,
{
    match index_of_name(frags, name, 0) {
        None => {},
        Some(j) => {
            if !(j >= st.started.len() || st.started[j as int] || fuel == 0) {
                lemma_function_undefined(frags, st, j, (fuel - 1) as nat);
            }
        },
    }
}

proof fn lemma_instrs_undefined(
    frags: Fragments,
    st: LinkState,
    i: nat,
    k: nat,
    acc: Seq<linked::Instr>,
    fuel: nat,
)
    ensures
        names_only_the_undefined(frags, linked_instrs(frags, st, i, k, acc, fuel)),
    decreases fuel, 3nat, decl_of(frags[i as int]).implementation.body.len() - k,
{
    let f = decl_of(frags[i as int]);
    let body = f.implementation.body;
    if k < body.len() {
        match body[k as int] {
            fragment::Instr::Raw(r) => {
                lemma_instrs_undefined(
                    frags,
                    st,
                    i,
                    k + 1,
                    acc.push(linked::Instr { instr: r }),
                    fuel,
                );
            },
            fragment::Instr::Call(c) => {
                match name_of(f.refs, c.fun.id) {
                    None => {},
                    Some(name) => {
                        lemma_resolved_undefined(frags, st, name, fuel);
                        match linked_call(frags, st, i, c, fuel) {
                            Err(_) => {},
                            Ok((st2, j)) => {
                                lemma_instrs_undefined(
                                    frags,
                                    st2,
                                    i,
                                    k + 1,
                                    acc.push(linked::Instr { instr: Instruction::Call(j) }),
                                    fuel,
                                );
                            },
                        }
                    },
                }
            },
        }
    }
}

proof fn lemma_function_undefined(frags: Fragments, st: LinkState, i: nat, fuel: nat)
    ensures
        names_only_the_undefined(frags, linked_function(frags, st, i, fuel)),
    decreases fuel, 4nat, 0nat,
{
    let st1 = LinkState { started: st.started.update(i as int, true), funs: st.funs };
    lemma_instrs_undefined(frags, st1, i, 0, Seq::empty(), fuel);
}

proof fn lemma_all_undefined(frags: Fragments, st: LinkState, i: nat, fuel: nat)
    ensures
        names_only_the_undefined(frags, linked_all(frags, st, i, fuel)),
    decreases frags.len() - i,
{
    if i < frags.len() {
        if i < st.started.len() && st.started[i as int] {
            lemma_all_undefined(frags, st, i + 1, fuel);
        } else {
            lemma_function_undefined(frags, st, i, fuel);
            match linked_function(frags, st, i, fuel) {
                Err(_) => {},
                Ok(st2) => {
                    lemma_all_undefined(frags, st2, i + 1, fuel);
                },
            }
        }
    }
}

/// Linking blames a name only if no function has it: the name in an error
/// about an unresolved call is the name of no fragment.
pub proof fn lemma_unresolved_name_is_undefined(frags: Fragments)
    ensures
        names_only_the_undefined(frags, linked_fragments(frags)),
{
    lemma_names_checked(frags, 0);
    lemma_all_undefined(frags, initial_state(frags.len()), 0, frags.len());
}

} // verus!
