use vstd::prelude::*;
use crate::renamer::plain;
use crate::renamer::plain::LocalIdent;
use crate::renamer::references::{block_within, expr_within, exprs_within, stmt_within};
use crate::simplifier::optimizations::passes::optimized_body;
use crate::simplifier::optimizations::prune_single_use::{merged, prunable, pruned, pruned_from};
use crate::simplifier::optimizations::remove_nops::without_nops_from;
use crate::simplifier::simple;
use crate::simplifier::simple::FunStmtView;
use crate::simplifier::simplifier::{
    initial_lowering, loop_test, lowered_block, lowered_expr, lowered_exprs, lowered_fun_impl,
    lowered_stmt, lowered_store, tagged, Instrs, Lowering,
};
use crate::util::loc::{SrcLoc, WithLoc};

verus! {

/// The callee of every call of the statement has a number below `n`.
pub open spec fn stmt_calls_within(s: FunStmtView, n: nat) -> bool
    decreases s,
{
    match s {
        FunStmtView::Assignment(a) => match a.v.value {
            simple::AssignmentValueView::Call(c) => c.v.fun_name.v.id < n,
            _ => true,
        },
        FunStmtView::Loop(l) => block_calls_within(l.v.body.v, n),
        FunStmtView::If(i) => block_calls_within(i.then_.v, n) && match i.else_ {
            Some(e) => block_calls_within(e.v, n),
            None => true,
        },
        _ => true,
    }
}

/// The callee of every call of the block has a number below `n`.
pub open spec fn block_calls_within(stmts: Seq<FunStmtView>, n: nat) -> bool
    decreases stmts,
{
    forall|i: int| 0 <= i < stmts.len() ==> stmt_calls_within(#[trigger] stmts[i], n)
}

proof fn lemma_push(acc: Instrs, s: FunStmtView, n: nat)
    requires
        block_calls_within(acc, n),
        stmt_calls_within(s, n),
    ensures
        block_calls_within(acc.push(s), n),
{
    let r = acc.push(s);
    assert forall|i: int| 0 <= i < r.len() implies stmt_calls_within(#[trigger] r[i], n) by {
        if i < acc.len() {
            assert(r[i] == acc[i]);
        }
    }
}

proof fn lemma_expr(st: Lowering, acc: Instrs, e: plain::ExprView, n: nat)
    requires
        block_calls_within(acc, n),
        expr_within(e, n),
    ensures
        match lowered_expr(st, acc, e) {
            Ok((_, out, _)) => block_calls_within(out, n),
            Err(_) => true,
        },
    decreases e,
{
    match lowered_expr(st, acc, e) {
        Err(_) => {},
        Ok((_, out, _)) => {
            match e {
                plain::ExprView::LitNum(_) => {
                    lemma_push(acc, out.last(), n);
                    assert(out =~= acc.push(out.last()));
                },
                plain::ExprView::LitStr(_) => {},
                plain::ExprView::Ident(_) => {},
                plain::ExprView::FunCall(c) => {
                    let s1 = tagged(st, plain::call_location(c))->Ok_0.0;
                    lemma_exprs(s1, acc, c.args.v, 0, Seq::empty(), n);
                    let acc2 = lowered_exprs(s1, acc, c.args.v, 0, Seq::empty())->Ok_0.1;
                    lemma_push(acc2, out.last(), n);
                    assert(out =~= acc2.push(out.last()));
                },
            }
        },
    }
}

proof fn lemma_exprs(
    st: Lowering,
    acc: Instrs,
    es: Seq<plain::ExprView>,
    k: nat,
    ps: Seq<simple::Ident>,
    n: nat,
)
    requires
        block_calls_within(acc, n),
        exprs_within(es, n),
    ensures
        match lowered_exprs(st, acc, es, k, ps) {
            Ok((_, out, _)) => block_calls_within(out, n),
            Err(_) => true,
        },
    decreases es, es.len() - k,
{
    if k < es.len() {
        lemma_expr(st, acc, es[k as int], n);
        match lowered_expr(st, acc, es[k as int]) {
            Err(_) => {},
            Ok((s, acc2, id)) => {
                lemma_exprs(s, acc2, es, k + 1, ps.push(id), n);
            },
        }
    }
}

proof fn lemma_store(
    st: Lowering,
    acc: Instrs,
    loc: SrcLoc,
    name: WithLoc<LocalIdent>,
    value: plain::ExprView,
    n: nat,
)
    requires
        block_calls_within(acc, n),
        expr_within(value, n),
    ensures
        match lowered_store(st, acc, loc, name, value) {
            Ok((_, out)) => block_calls_within(out, n),
            Err(_) => true,
        },
{
    match lowered_store(st, acc, loc, name, value) {
        Err(_) => {},
        Ok((_, out)) => {
            let s1 = tagged(st, loc)->Ok_0.0;
            lemma_expr(s1, acc, value, n);
            let acc2 = lowered_expr(s1, acc, value)->Ok_0.1;
            lemma_push(acc2, out.last(), n);
            assert(out =~= acc2.push(out.last()));
        },
    }
}

proof fn lemma_stmt(st: Lowering, acc: Instrs, s: plain::FunStmtView, n: nat)
    requires
        block_calls_within(acc, n),
        stmt_within(s, n),
    ensures
        match lowered_stmt(st, acc, s) {
            Ok((_, out)) => block_calls_within(out, n),
            Err(_) => true,
        },
    decreases s,
{
    match lowered_stmt(st, acc, s) {
        Err(_) => {},
        Ok((_, out)) => {
            match s {
                plain::FunStmtView::Return(r) => {
                    lemma_expr(st, acc, r.v, n);
                    let acc1 = lowered_expr(st, acc, r.v)->Ok_0.1;
                    lemma_push(acc1, out.last(), n);
                    assert(out =~= acc1.push(out.last()));
                },
                plain::FunStmtView::Inv(_) => {},
                plain::FunStmtView::LetDecl(d) => {
                    lemma_store(st, acc, d.a, d.v.name, d.v.value, n);
                },
                plain::FunStmtView::Assignment(d) => {
                    lemma_store(st, acc, d.a, d.v.id, d.v.value, n);
                },
                plain::FunStmtView::While(w) => {
                    let s1 = tagged(st, w.a)->Ok_0.0;
                    let empty = Seq::<FunStmtView>::empty();
                    lemma_expr(s1, empty, w.v.condition, n);
                    let (s2, head, condition) = lowered_expr(s1, empty, w.v.condition)->Ok_0;
                    let test = loop_test(condition);
                    assert(block_calls_within(Seq::<FunStmtView>::empty(), n));
                    assert(block_calls_within(seq![FunStmtView::Break], n));
                    assert(stmt_calls_within(test, n));
                    lemma_push(head, test, n);
                    lemma_block(s2, head.push(test), w.v.body.v, 0, n);
                    assert(stmt_calls_within(out.last(), n));
                    lemma_push(acc, out.last(), n);
                    assert(out =~= acc.push(out.last()));
                },
                plain::FunStmtView::If(i) => {
                    lemma_expr(st, acc, i.v.condition, n);
                    let (s1, acc1, condition) = lowered_expr(st, acc, i.v.condition)->Ok_0;
                    let empty = Seq::<FunStmtView>::empty();
                    lemma_block(s1, empty, i.v.then_.v, 0, n);
                    let (s2, then_body) = lowered_block(s1, empty, i.v.then_.v, 0)->Ok_0;
                    match i.v.else_ {
                        None => {},
                        Some(e) => {
                            lemma_block(s2, empty, e.v, 0, n);
                        },
                    }
                    assert(stmt_calls_within(out.last(), n));
                    lemma_push(acc1, out.last(), n);
                    assert(out =~= acc1.push(out.last()));
                },
            }
        },
    }
}

proof fn lemma_block(st: Lowering, acc: Instrs, stmts: Seq<plain::FunStmtView>, k: nat, n: nat)
    requires
        block_calls_within(acc, n),
        block_within(stmts, n),
    ensures
        match lowered_block(st, acc, stmts, k) {
            Ok((_, out)) => block_calls_within(out, n),
            Err(_) => true,
        },
    decreases stmts, stmts.len() - k,
{
    if k < stmts.len() {
        lemma_stmt(st, acc, stmts[k as int], n);
        match lowered_stmt(st, acc, stmts[k as int]) {
            Err(_) => {},
            Ok((s, acc2)) => {
                lemma_block(s, acc2, stmts, k + 1, n);
            },
        }
    }
}

proof fn lemma_without_nops(s: Seq<FunStmtView>, k: nat, acc: Seq<FunStmtView>, n: nat)
    requires
        block_calls_within(s, n),
        block_calls_within(acc, n),
    ensures
        block_calls_within(without_nops_from(s, k, acc), n),
    decreases s.len() - k,
{
    if k < s.len() {
        if s[k as int] is Nop {
            lemma_without_nops(s, k + 1, acc, n);
        } else {
            lemma_push(acc, s[k as int], n);
            lemma_without_nops(s, k + 1, acc.push(s[k as int]), n);
        }
    }
}

proof fn lemma_pruned(s: Seq<FunStmtView>, k: nat, out: Seq<FunStmtView>, carry: FunStmtView, n: nat)
    requires
        block_calls_within(s, n),
        block_calls_within(out, n),
        stmt_calls_within(carry, n),
    ensures
        block_calls_within(pruned_from(s, k, out, carry), n),
    decreases s.len() - k,
{
    if k < s.len() {
        if prunable(carry, s[k as int]) {
            lemma_push(out, FunStmtView::Nop, n);
            lemma_pruned(s, k + 1, out.push(FunStmtView::Nop), merged(carry, s[k as int]), n);
        } else {
            lemma_push(out, carry, n);
            lemma_pruned(s, k + 1, out.push(carry), s[k as int], n);
        }
    } else {
        lemma_push(out, carry, n);
    }
}

/// The peephole pass makes up no callee.
pub proof fn lemma_optimized_calls_within(s: Seq<FunStmtView>, n: nat)
    requires
        block_calls_within(s, n),
    ensures
        block_calls_within(optimized_body(s), n),
{
    if s.len() > 0 {
        lemma_pruned(s, 1, Seq::empty(), s[0], n);
    }
    lemma_without_nops(pruned(s), 0, Seq::empty(), n);
}

/// Lowering makes up no callee: where every open name of a function has a
/// number below `n`, so has the callee of every call of its flat form.
pub proof fn lemma_lowered_calls_within(f: plain::FunImplView, n: nat)
    requires
        block_within(f.body.v, n),
    ensures
        match lowered_fun_impl(f) {
            Ok((g, _)) => block_calls_within(optimized_body(g.body.v), n),
            Err(_) => true,
        },
{
    lemma_block(initial_lowering(), Seq::empty(), f.body.v, 0, n);
    match lowered_fun_impl(f) {
        Err(_) => {},
        Ok((g, _)) => {
            lemma_optimized_calls_within(g.body.v, n);
        },
    }
}

} // verus!
