use vstd::prelude::*;
use crate::renamer::plain;
use crate::renamer::plain::LocalIdent;
use crate::simplifier::optimizations::laws::{
    lemma_optimized_is_settled, lemma_settled_is_fixed, no_nops,
};
use crate::simplifier::optimizations::passes::optimized_body;
use crate::simplifier::optimizations::prune_single_use::{merged, prunable, pruned, pruned_from};
use crate::simplifier::optimizations::remove_nops::without_nops_from;
use crate::simplifier::simple;
use crate::simplifier::simple::FunStmtView;
use crate::simplifier::simplifier::{
    initial_lowering, loop_test, lowered_block, lowered_expr, lowered_exprs, lowered_fun_impl,
    lowered_stmt, lowered_store, tagged, Instrs, Lowering,
};
use crate::util::loc::{SrcLoc, WithLoc};

verus! {

/// Every `Break` of `s` lies in a loop, where `in_loop` says whether a loop
/// encloses `s` itself.
pub open spec fn stmt_enclosed(s: FunStmtView, in_loop: bool) -> bool
    decreases s,
{
    match s {
        FunStmtView::Break => in_loop,
        FunStmtView::Loop(l) => block_enclosed(l.v.body.v, true),
        FunStmtView::If(i) => block_enclosed(i.then_.v, in_loop) && match i.else_ {
            Some(e) => block_enclosed(e.v, in_loop),
            None => true,
        },
        _ => true,
    }
}

/// Every `Break` of the block lies in a loop.
pub open spec fn block_enclosed(stmts: Seq<FunStmtView>, in_loop: bool) -> bool
    decreases stmts,
{
    forall|i: int| 0 <= i < stmts.len() ==> stmt_enclosed(#[trigger] stmts[i], in_loop)
}

/// What lowering keeps of the statements made so far: no `Nop` among them,
/// and every `Break` in a loop.
pub open spec fn sound(acc: Instrs, in_loop: bool) -> bool {
    no_nops(acc) && block_enclosed(acc, in_loop)
}

proof fn lemma_push_sound(acc: Instrs, s: FunStmtView, in_loop: bool)
    requires
        sound(acc, in_loop),
        !(s is Nop),
        stmt_enclosed(s, in_loop),
    ensures
        sound(acc.push(s), in_loop),
{
    let r = acc.push(s);
    assert forall|i: int| 0 <= i < r.len() implies !(#[trigger] r[i] is Nop) by {
        if i < acc.len() {
            assert(r[i] == acc[i]);
        }
    }
    assert forall|i: int| 0 <= i < r.len() implies stmt_enclosed(#[trigger] r[i], in_loop) by {
        if i < acc.len() {
            assert(r[i] == acc[i]);
        }
    }
}

proof fn lemma_expr_sound(st: Lowering, acc: Instrs, e: plain::ExprView, in_loop: bool)
    requires
        sound(acc, in_loop),
    ensures
        match lowered_expr(st, acc, e) {
            Ok((_, out, _)) => sound(out, in_loop),
            Err(_) => true,
        },
    decreases e,
{
    match lowered_expr(st, acc, e) {
        Err(_) => {},
        Ok((_, out, _)) => {
            match e {
                plain::ExprView::LitNum(n) => {
                    lemma_push_sound(acc, out.last(), in_loop);
                    assert(out =~= acc.push(out.last()));
                },
                plain::ExprView::LitStr(_) => {},
                plain::ExprView::Ident(_) => {},
                plain::ExprView::FunCall(c) => {
                    let s1 = tagged(st, plain::call_location(c))->Ok_0.0;
                    lemma_exprs_sound(s1, acc, c.args.v, 0, Seq::empty(), in_loop);
                    let acc2 = lowered_exprs(s1, acc, c.args.v, 0, Seq::empty())->Ok_0.1;
                    lemma_push_sound(acc2, out.last(), in_loop);
                    assert(out =~= acc2.push(out.last()));
                },
            }
        },
    }
}

proof fn lemma_exprs_sound(
    st: Lowering,
    acc: Instrs,
    es: Seq<plain::ExprView>,
    k: nat,
    ps: Seq<simple::Ident>,
    in_loop: bool,
)
    requires
        sound(acc, in_loop),
    ensures
        match lowered_exprs(st, acc, es, k, ps) {
            Ok((_, out, _)) => sound(out, in_loop),
            Err(_) => true,
        },
    decreases es, es.len() - k,
{
    if k < es.len() {
        lemma_expr_sound(st, acc, es[k as int], in_loop);
        match lowered_expr(st, acc, es[k as int]) {
            Err(_) => {},
            Ok((s, acc2, id)) => {
                lemma_exprs_sound(s, acc2, es, k + 1, ps.push(id), in_loop);
            },
        }
    }
}

proof fn lemma_store_sound(
    st: Lowering,
    acc: Instrs,
    loc: SrcLoc,
    name: WithLoc<LocalIdent>,
    value: plain::ExprView,
    in_loop: bool,
)
    requires
        sound(acc, in_loop),
    ensures
        match lowered_store(st, acc, loc, name, value) {
            Ok((_, out)) => sound(out, in_loop),
            Err(_) => true,
        },
{
    match lowered_store(st, acc, loc, name, value) {
        Err(_) => {},
        Ok((_, out)) => {
            let s1 = tagged(st, loc)->Ok_0.0;
            lemma_expr_sound(s1, acc, value, in_loop);
            let acc2 = lowered_expr(s1, acc, value)->Ok_0.1;
            lemma_push_sound(acc2, out.last(), in_loop);
            assert(out =~= acc2.push(out.last()));
        },
    }
}

proof fn lemma_stmt_sound(st: Lowering, acc: Instrs, s: plain::FunStmtView, in_loop: bool)
    requires
        sound(acc, in_loop),
    ensures
        match lowered_stmt(st, acc, s) {
            Ok((_, out)) => sound(out, in_loop),
            Err(_) => true,
        },
    decreases s,
{
    match lowered_stmt(st, acc, s) {
        Err(_) => {},
        Ok((_, out)) => {
            match s {
                plain::FunStmtView::Return(r) => {
                    lemma_expr_sound(st, acc, r.v, in_loop);
                    let acc1 = lowered_expr(st, acc, r.v)->Ok_0.1;
                    lemma_push_sound(acc1, out.last(), in_loop);
                    assert(out =~= acc1.push(out.last()));
                },
                plain::FunStmtView::Inv(_) => {},
                plain::FunStmtView::LetDecl(d) => {
                    lemma_store_sound(st, acc, d.a, d.v.name, d.v.value, in_loop);
                },
                plain::FunStmtView::Assignment(d) => {
                    lemma_store_sound(st, acc, d.a, d.v.id, d.v.value, in_loop);
                },
                plain::FunStmtView::While(w) => {
                    let s1 = tagged(st, w.a)->Ok_0.0;
                    let empty = Seq::<FunStmtView>::empty();
                    lemma_expr_sound(s1, empty, w.v.condition, true);
                    let (s2, head, condition) = lowered_expr(s1, empty, w.v.condition)->Ok_0;
                    let test = loop_test(condition);
                    assert(block_enclosed(Seq::<FunStmtView>::empty(), true));
                    assert(block_enclosed(seq![FunStmtView::Break], true));
                    assert(stmt_enclosed(test, true));
                    lemma_push_sound(head, test, true);
                    lemma_block_sound(s2, head.push(test), w.v.body.v, 0, true);
                    let body = lowered_block(s2, head.push(test), w.v.body.v, 0)->Ok_0.1;
                    assert(stmt_enclosed(out.last(), in_loop));
                    lemma_push_sound(acc, out.last(), in_loop);
                    assert(out =~= acc.push(out.last()));
                },
                plain::FunStmtView::If(i) => {
                    lemma_expr_sound(st, acc, i.v.condition, in_loop);
                    let (s1, acc1, condition) = lowered_expr(st, acc, i.v.condition)->Ok_0;
                    let empty = Seq::<FunStmtView>::empty();
                    lemma_block_sound(s1, empty, i.v.then_.v, 0, in_loop);
                    let (s2, then_body) = lowered_block(s1, empty, i.v.then_.v, 0)->Ok_0;
                    match i.v.else_ {
                        None => {},
                        Some(e) => {
                            lemma_block_sound(s2, empty, e.v, 0, in_loop);
                        },
                    }
                    assert(stmt_enclosed(out.last(), in_loop));
                    lemma_push_sound(acc1, out.last(), in_loop);
                    assert(out =~= acc1.push(out.last()));
                },
            }
        },
    }
}

proof fn lemma_block_sound(
    st: Lowering,
    acc: Instrs,
    stmts: Seq<plain::FunStmtView>,
    k: nat,
    in_loop: bool,
)
    requires
        sound(acc, in_loop),
    ensures
        match lowered_block(st, acc, stmts, k) {
            Ok((_, out)) => sound(out, in_loop),
            Err(_) => true,
        },
    decreases stmts, stmts.len() - k,
{
    if k < stmts.len() {
        lemma_stmt_sound(st, acc, stmts[k as int], in_loop);
        match lowered_stmt(st, acc, stmts[k as int]) {
            Err(_) => {},
            Ok((s, acc2)) => {
                lemma_block_sound(s, acc2, stmts, k + 1, in_loop);
            },
        }
    }
}

/// Lowering makes no `Nop`, and it puts every `Break` into a loop.
pub proof fn lemma_lowered_is_sound(f: plain::FunImplView)
    ensures
        match lowered_fun_impl(f) {
            Ok((g, _)) => no_nops(g.body.v) && block_enclosed(g.body.v, false),
            Err(_) => true,
        },
{
    lemma_block_sound(initial_lowering(), Seq::empty(), f.body.v, 0, false);
}

proof fn lemma_without_nops_enclosed(s: Seq<FunStmtView>, k: nat, acc: Seq<FunStmtView>, in_loop: bool)
    requires
        block_enclosed(s, in_loop),
        block_enclosed(acc, in_loop),
    ensures
        block_enclosed(without_nops_from(s, k, acc), in_loop),
    decreases s.len() - k,
{
    if k < s.len() {
        if s[k as int] is Nop {
            lemma_without_nops_enclosed(s, k + 1, acc, in_loop);
        } else {
            let r = acc.push(s[k as int]);
            assert forall|i: int| 0 <= i < r.len() implies stmt_enclosed(#[trigger] r[i], in_loop) by {
                if i < acc.len() {
                    assert(r[i] == acc[i]);
                }
            }
            lemma_without_nops_enclosed(s, k + 1, r, in_loop);
        }
    }
}

proof fn lemma_pruned_enclosed(
    s: Seq<FunStmtView>,
    k: nat,
    out: Seq<FunStmtView>,
    carry: FunStmtView,
    in_loop: bool,
)
    requires
        block_enclosed(s, in_loop),
        block_enclosed(out, in_loop),
        stmt_enclosed(carry, in_loop),
    ensures
        block_enclosed(pruned_from(s, k, out, carry), in_loop),
    decreases s.len() - k,
{
    let next_out = if k < s.len() && prunable(carry, s[k as int]) {
        out.push(FunStmtView::Nop)
    } else {
        out.push(carry)
    };
    assert forall|i: int| 0 <= i < next_out.len() implies stmt_enclosed(
        #[trigger] next_out[i],
        in_loop,
    ) by {
        if i < out.len() {
            assert(next_out[i] == out[i]);
        }
    }
    if k < s.len() {
        if prunable(carry, s[k as int]) {
            lemma_pruned_enclosed(s, k + 1, next_out, merged(carry, s[k as int]), in_loop);
        } else {
            lemma_pruned_enclosed(s, k + 1, next_out, s[k as int], in_loop);
        }
    }
}

/// The peephole pass keeps every `Break` in its loop.
pub proof fn lemma_optimized_is_enclosed(s: Seq<FunStmtView>, in_loop: bool)
    requires
        block_enclosed(s, in_loop),
    ensures
        block_enclosed(optimized_body(s), in_loop),
{
    if s.len() > 0 {
        lemma_pruned_enclosed(s, 1, Seq::empty(), s[0], in_loop);
    }
    lemma_without_nops_enclosed(pruned(s), 0, Seq::empty(), in_loop);
}

/// What the simplifier gives leaves nothing for the peephole pass: run on the
/// body of a function that was lowered and passed through it once, the pass
/// changes nothing.
pub proof fn lemma_simplified_body_is_fixed(f: plain::FunImplView)
    ensures
        match lowered_fun_impl(f) {
            Ok((g, _)) => optimized_body(optimized_body(g.body.v)) == optimized_body(g.body.v),
            Err(_) => true,
        },
{
    lemma_lowered_is_sound(f);
    match lowered_fun_impl(f) {
        Err(_) => {},
        Ok((g, _)) => {
            lemma_optimized_is_settled(g.body.v);
            lemma_settled_is_fixed(optimized_body(g.body.v));
        },
    }
}

/// In the body of a simplified function every `Break` lies in a loop.
pub proof fn lemma_simplified_body_is_enclosed(f: plain::FunImplView)
    ensures
        match lowered_fun_impl(f) {
            Ok((g, _)) => block_enclosed(optimized_body(g.body.v), false),
            Err(_) => true,
        },
{
    lemma_lowered_is_sound(f);
    match lowered_fun_impl(f) {
        Err(_) => {},
        Ok((g, _)) => {
            lemma_optimized_is_enclosed(g.body.v, false);
        },
    }
}

} // verus!
