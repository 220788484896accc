use vstd::prelude::*;
use crate::codegen::codegen::{generated_module, generated_statements, generated_top_level};
use crate::codegen::error::Error;
use crate::codegen::fragment;
use crate::codegen::laws::lemma_enclosed_breaks_find_their_loop;
use crate::codegen::references::{code_within, lemma_generated_calls_within};
use crate::error::ErrorView;
use crate::linker;
use crate::linker::linker::{decl_of, program};
use crate::linker::prims::primitives;
use crate::linker::references::{all_closed, closed, lemma_closed_fragments_find_their_references};
use crate::parser::syntax;
use crate::renamer::plain;
use crate::renamer::references::{
    block_within, lemma_numbered_has_names, lemma_references_are_complete, numbered,
};
use crate::renamer::renamer::{renamed_module, renamed_statement, renamed_statements};
use crate::runner::{compiled, fragments_of, prelude_fragments};
use crate::simplifier::references::{block_calls_within, lemma_lowered_calls_within};
use crate::simplifier::laws::{block_enclosed, lemma_lowered_is_sound, lemma_optimized_is_enclosed};
use crate::simplifier::optimizations::laws::{
    lemma_optimized_is_settled, lemma_settled_is_fixed, no_nops,
};
use crate::simplifier::optimizations::passes::{
    optimized_body, optimized_module, optimized_top_level,
};
use crate::simplifier::simple;
use crate::util::bimap::name_of;
use crate::simplifier::simplifier::{
    lowered_module, lowered_statements, lowered_top_level, simplified_module,
};

verus! {

/// The body of the function that a top-level statement declares.
pub open spec fn body_of(s: simple::TopLevelStmtView) -> Seq<simple::FunStmtView> {
    match s {
        simple::TopLevelStmtView::FunDecl(f) => f.v.implementation.body.v,
    }
}

/// What holds of a function as lowering leaves it: no `Nop` in its body, and
/// every `Break` in a loop.
pub open spec fn well_lowered(s: simple::TopLevelStmtView) -> bool {
    no_nops(body_of(s)) && block_enclosed(body_of(s), false)
}

proof fn lemma_lowered_statements(
    stmts: Seq<plain::TopLevelStmtView>,
    k: nat,
    acc: Seq<simple::TopLevelStmtView>,
)
    requires
        forall|i: int| 0 <= i < acc.len() ==> well_lowered(#[trigger] acc[i]),
    ensures
        match lowered_statements(stmts, k, acc) {
            Ok(out) => forall|i: int| 0 <= i < out.len() ==> well_lowered(#[trigger] out[i]),
            Err(_) => true,
        },
    decreases stmts.len() - k,
{
    if k < stmts.len() {
        match lowered_top_level(stmts[k as int]) {
            Err(_) => {},
            Ok(x) => {
                match stmts[k as int] {
                    plain::TopLevelStmtView::FunDef(f) => {
                        lemma_lowered_is_sound(f.v.implementation);
                    },
                }
                let next = acc.push(x);
                assert forall|i: int| 0 <= i < next.len() implies well_lowered(
                    #[trigger] next[i],
                ) by {
                    if i < acc.len() {
                        assert(next[i] == acc[i]);
                    }
                }
                lemma_lowered_statements(stmts, k + 1, next);
            },
        }
    }
}

/// In a simplified program no function holds a `Nop` or a prunable pair, so
/// that the peephole pass, run once more, changes nothing; and every `Break`
/// lies in a loop.
pub proof fn lemma_simplified_is_settled(m: plain::ModuleView)
    ensures
        match simplified_module(m) {
            Ok(s) => {
                &&& optimized_module(s) == s
                &&& forall|i: int|
                    0 <= i < s.statements.len() ==> block_enclosed(
                        body_of(#[trigger] s.statements[i]),
                        false,
                    )
            },
            Err(_) => true,
        },
{
    match lowered_module(m) {
        Err(_) => {},
        Ok(l) => {
            lemma_lowered_statements(m.statements, 0, Seq::empty());
            let s = optimized_module(l);
            assert forall|i: int| 0 <= i < s.statements.len() implies optimized_top_level(
                #[trigger] s.statements[i],
            ) == s.statements[i] && block_enclosed(body_of(s.statements[i]), false) by {
                assert(well_lowered(l.statements[i]));
                let body = body_of(l.statements[i]);
                lemma_optimized_is_settled(body);
                lemma_settled_is_fixed(optimized_body(body));
                lemma_optimized_is_enclosed(body, false);
            }
            assert(optimized_module(s).statements =~= s.statements);
        },
    }
}

proof fn lemma_generated_statements(
    stmts: Seq<simple::TopLevelStmtView>,
    k: nat,
    acc: Seq<fragment::TopLevelStmtView>,
)
    requires
        forall|i: int| 0 <= i < stmts.len() ==> block_enclosed(body_of(#[trigger] stmts[i]), false),
    ensures
        generated_statements(stmts, k, acc) != Err::<Seq<fragment::TopLevelStmtView>, Error>(
            Error::BreakOutsideLoop,
        ),
    decreases stmts.len() - k,
{
    if k < stmts.len() {
        match stmts[k as int] {
            simple::TopLevelStmtView::FunDecl(f) => {
                assert(block_enclosed(body_of(stmts[k as int]), false));
                lemma_enclosed_breaks_find_their_loop(f.v.implementation);
            },
        }
        match generated_top_level(stmts[k as int]) {
            Err(_) => {},
            Ok(x) => {
                lemma_generated_statements(stmts, k + 1, acc.push(x));
            },
        }
    }
}

/// No stage hands a `Break` without a loop to the next: the code generator
/// never fails for want of a loop on what the simplifier gives it.
pub proof fn lemma_breaks_survive_the_stages(m: plain::ModuleView)
    ensures
        match simplified_module(m) {
            Ok(s) => generated_module(s) != Err::<fragment::ModuleView, Error>(
                Error::BreakOutsideLoop,
            ),
            Err(_) => true,
        },
{
    lemma_simplified_is_settled(m);
    match simplified_module(m) {
        Err(_) => {},
        Ok(s) => {
            lemma_generated_statements(s.statements, 0, Seq::empty());
        },
    }
}

/// The references table of the function numbers its names by position and
/// holds every number that the body uses.
pub open spec fn plain_complete(s: plain::TopLevelStmtView) -> bool {
    match s {
        plain::TopLevelStmtView::FunDef(f) => numbered(f.v.refs) && block_within(
            f.v.implementation.body.v,
            f.v.refs.len(),
        ),
    }
}

/// As `plain_complete`, of a function in the flat form.
pub open spec fn simple_complete(s: simple::TopLevelStmtView) -> bool {
    match s {
        simple::TopLevelStmtView::FunDecl(f) => numbered(f.v.refs) && block_calls_within(
            f.v.implementation.body.v,
            f.v.refs.len(),
        ),
    }
}

proof fn lemma_renamed_complete(
    stmts: Seq<syntax::TopLevelStmtView>,
    k: nat,
    acc: Seq<plain::TopLevelStmtView>,
)
    requires
        forall|i: int| 0 <= i < acc.len() ==> plain_complete(#[trigger] acc[i]),
    ensures
        match renamed_statements(stmts, k, acc) {
            Ok(out) => forall|i: int| 0 <= i < out.len() ==> plain_complete(#[trigger] out[i]),
            Err(_) => true,
        },
    decreases stmts.len() - k,
{
    if k < stmts.len() {
        match renamed_statement(stmts[k as int]) {
            Err(_) => {},
            Ok(x) => {
                match stmts[k as int] {
                    syntax::TopLevelStmtView::FunDef(f) => {
                        lemma_references_are_complete(f.v);
                    },
                }
                let next = acc.push(x);
                assert forall|i: int| 0 <= i < next.len() implies plain_complete(
                    #[trigger] next[i],
                ) by {
                    if i < acc.len() {
                        assert(next[i] == acc[i]);
                    }
                }
                lemma_renamed_complete(stmts, k + 1, next);
            },
        }
    }
}

proof fn lemma_lowered_complete(
    stmts: Seq<plain::TopLevelStmtView>,
    k: nat,
    acc: Seq<simple::TopLevelStmtView>,
)
    requires
        forall|i: int| 0 <= i < stmts.len() ==> plain_complete(#[trigger] stmts[i]),
        forall|i: int| 0 <= i < acc.len() ==> simple_complete(optimized_top_level(#[trigger] acc[i])),
    ensures
        match lowered_statements(stmts, k, acc) {
            Ok(out) => forall|i: int|
                0 <= i < out.len() ==> simple_complete(optimized_top_level(#[trigger] out[i])),
            Err(_) => true,
        },
    decreases stmts.len() - k,
{
    if k < stmts.len() {
        match lowered_top_level(stmts[k as int]) {
            Err(_) => {},
            Ok(x) => {
                assert(plain_complete(stmts[k as int]));
                match stmts[k as int] {
                    plain::TopLevelStmtView::FunDef(f) => {
                        lemma_lowered_calls_within(f.v.implementation, f.v.refs.len());
                    },
                }
                let next = acc.push(x);
                assert forall|i: int| 0 <= i < next.len() implies simple_complete(
                    optimized_top_level(#[trigger] next[i]),
                ) by {
                    if i < acc.len() {
                        assert(next[i] == acc[i]);
                    }
                }
                lemma_lowered_complete(stmts, k + 1, next);
            },
        }
    }
}

proof fn lemma_generated_closed(
    stmts: Seq<simple::TopLevelStmtView>,
    k: nat,
    acc: Seq<fragment::TopLevelStmtView>,
)
    requires
        forall|i: int| 0 <= i < stmts.len() ==> simple_complete(#[trigger] stmts[i]),
        all_closed(acc),
    ensures
        match generated_statements(stmts, k, acc) {
            Ok(out) => all_closed(out),
            Err(_) => true,
        },
    decreases stmts.len() - k,
{
    if k < stmts.len() {
        match generated_top_level(stmts[k as int]) {
            Err(_) => {},
            Ok(x) => {
                assert(simple_complete(stmts[k as int]));
                match stmts[k as int] {
                    simple::TopLevelStmtView::FunDecl(f) => {
                        lemma_generated_calls_within(f.v.implementation, f.v.refs.len());
                        let d = decl_of(x);
                        assert(code_within(d.implementation.body, d.refs.len()));
                        assert forall|i: int|
                            0 <= i < d.implementation.body.len() implies match #[trigger] d.implementation.body[i] {
                            fragment::Instr::Call(c) => name_of(
                                d.refs,
                                c.fun.id,
                            ).is_some(),
                            fragment::Instr::Raw(_) => true,
                        } by {
                            match d.implementation.body[i] {
                                fragment::Instr::Call(c) => {
                                    lemma_numbered_has_names(d.refs, c.fun.id, 0);
                                },
                                fragment::Instr::Raw(_) => {},
                            }
                        }
                    },
                }
                let next = acc.push(x);
                assert forall|i: int| 0 <= i < next.len() implies closed(
                    decl_of(#[trigger] next[i]),
                ) by {
                    if i < acc.len() {
                        assert(next[i] == acc[i]);
                    }
                }
                lemma_generated_closed(stmts, k + 1, next);
            },
        }
    }
}

/// The references table is the one channel by which a call reaches the
/// linker, and it holds through the stages: in the fragments of a program
/// every open call has its callee's name in the table of its function.
pub proof fn lemma_fragments_are_closed(m: syntax::ModuleView)
    ensures
        match fragments_of(m) {
            Ok(stages) => all_closed(stages.fragment.statements),
            Err(_) => true,
        },
{
    lemma_renamed_complete(m.statements.v, 0, Seq::empty());
    match renamed_module(m) {
        Err(_) => {},
        Ok(p) => {
            lemma_lowered_complete(p.statements, 0, Seq::empty());
            match lowered_module(p) {
                Err(_) => {},
                Ok(l) => {
                    let s = optimized_module(l);
                    assert forall|i: int| 0 <= i < s.statements.len() implies simple_complete(
                        #[trigger] s.statements[i],
                    ) by {
                        assert(simple_complete(optimized_top_level(l.statements[i])));
                    }
                    lemma_generated_closed(s.statements, 0, Seq::empty());
                },
            }
        },
    }
}

proof fn lemma_primitives_are_closed()
    ensures
        all_closed(primitives().statements),
{
    let p = primitives().statements;
    assert forall|i: int| 0 <= i < p.len() implies closed(decl_of(#[trigger] p[i])) by {
        let body = decl_of(p[i]).implementation.body;
        assert forall|j: int| 0 <= j < body.len() implies match #[trigger] body[j] {
            fragment::Instr::Call(c) => name_of(
                decl_of(p[i]).refs,
                c.fun.id,
            ).is_some(),
            fragment::Instr::Raw(_) => true,
        } by {
            assert(body[j] is Raw);
        }
    }
}

/// A program that went through the stages never fails to link for want of a
/// reference: an open call can fail at link time only because no function has
/// the name that it calls.
pub proof fn lemma_calls_fail_only_by_name(user: syntax::ModuleView, prelude: syntax::ModuleView)
    ensures
        match compiled(user, prelude) {
            Err(ErrorView::Linker(linker::error::ErrorView::MissingReference { .. })) => false,
            _ => true,
        },
{
    lemma_fragments_are_closed(user);
    lemma_fragments_are_closed(prelude);
    lemma_primitives_are_closed();
    match prelude_fragments(prelude) {
        Err(e) => {
            assert(!(e is Linker));
        },
        Ok(std_) => match fragments_of(user) {
            Err(e) => {
                assert(!(e is Linker));
            },
            Ok(s) => {
                let hid = fragments_of(prelude)->Ok_0.fragment;
                assert forall|i: int| 0 <= i < std_.statements.len() implies closed(
                    decl_of(#[trigger] std_.statements[i]),
                ) by {
                    assert(closed(decl_of(hid.statements[i])));
                    assert(decl_of(std_.statements[i]).implementation == decl_of(
                        hid.statements[i],
                    ).implementation);
                    assert(decl_of(std_.statements[i]).refs == decl_of(hid.statements[i]).refs);
                }
                let frags = program(s.fragment, primitives(), Some(std_));
                let p = primitives().statements;
                assert forall|i: int| 0 <= i < frags.len() implies closed(
                    decl_of(#[trigger] frags[i]),
                ) by {
                    if i < p.len() {
                        assert(frags[i] == p[i]);
                    } else if i < p.len() + std_.statements.len() {
                        assert(frags[i] == std_.statements[i - p.len()]);
                    } else {
                        assert(frags[i] == s.fragment.statements[i - p.len()
                            - std_.statements.len()]);
                    }
                }
                lemma_closed_fragments_find_their_references(frags);
            },
        },
    }
}

} // verus!
