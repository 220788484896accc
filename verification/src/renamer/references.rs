use vstd::prelude::*;
use crate::parser::syntax;
use crate::renamer::plain;
use crate::renamer::plain::LocalIdent;
use crate::renamer::renamer::{
    bind_local, bound_params, empty_scope, open_name, renamed_block, renamed_call, renamed_expr,
    renamed_exprs, renamed_function, renamed_stmt, Name, Scope,
};
use crate::util::bimap::{
    index_of_left, index_of_right, inserted, name_of, number_of, without, Pairs,
};
use crate::util::loc::WithLoc;

verus! {

/// A references table as the renamer makes it: the number of each pair is
/// its position, no name stands twice, and the numbers fit in 32 bits.
pub open spec fn numbered(refs: Pairs) -> bool {
    &&& refs.len() <= u32::MAX
    &&& forall|i: int| 0 <= i < refs.len() ==> (#[trigger] refs[i]).0 == i
    &&& forall|i: int, j: int| 0 <= i < j < refs.len() ==> refs[i].1 != refs[j].1
}

/// Every open name of the expression has a number below `n`.
pub open spec fn expr_within(e: plain::ExprView, n: nat) -> bool
    decreases e,
{
    match e {
        plain::ExprView::Ident(plain::Ident::Global(g)) => g.v.id < n,
        plain::ExprView::FunCall(c) => c.name.v.id < n && exprs_within(c.args.v, n),
        _ => true,
    }
}

/// Every open name of the expressions has a number below `n`.
pub open spec fn exprs_within(es: Seq<plain::ExprView>, n: nat) -> bool
    decreases es,
{
    forall|i: int| 0 <= i < es.len() ==> expr_within(#[trigger] es[i], n)
}

/// Every open name of the statement has a number below `n`.
pub open spec fn stmt_within(s: plain::FunStmtView, n: nat) -> bool
    decreases s,
{
    match s {
        plain::FunStmtView::Return(r) => expr_within(r.v, n),
        plain::FunStmtView::Inv(i) => expr_within(i.v, n),
        plain::FunStmtView::LetDecl(d) => expr_within(d.v.value, n),
        plain::FunStmtView::Assignment(d) => expr_within(d.v.value, n),
        plain::FunStmtView::While(w) => expr_within(w.v.condition, n) && block_within(
            w.v.body.v,
            n,
        ),
        plain::FunStmtView::If(i) => expr_within(i.v.condition, n) && block_within(i.v.then_.v, n)
            && match i.v.else_ {
            Some(e) => block_within(e.v, n),
            None => true,
        },
    }
}

/// Every open name of the block has a number below `n`.
pub open spec fn block_within(stmts: Seq<plain::FunStmtView>, n: nat) -> bool
    decreases stmts,
{
    forall|i: int| 0 <= i < stmts.len() ==> stmt_within(#[trigger] stmts[i], n)
}

proof fn lemma_expr_within_more(e: plain::ExprView, n: nat, m: nat)
    requires
        expr_within(e, n),
        n <= m,
    ensures
        expr_within(e, m),
    decreases e,
{
    match e {
        plain::ExprView::FunCall(c) => {
            lemma_exprs_within_more(c.args.v, n, m);
        },
        _ => {},
    }
}

proof fn lemma_exprs_within_more(es: Seq<plain::ExprView>, n: nat, m: nat)
    requires
        exprs_within(es, n),
        n <= m,
    ensures
        exprs_within(es, m),
    decreases es,
{
    assert forall|i: int| 0 <= i < es.len() implies expr_within(#[trigger] es[i], m) by {
        lemma_expr_within_more(es[i], n, m);
    }
}

proof fn lemma_stmt_within_more(s: plain::FunStmtView, n: nat, m: nat)
    requires
        stmt_within(s, n),
        n <= m,
    ensures
        stmt_within(s, m),
    decreases s,
{
    match s {
        plain::FunStmtView::Return(r) => {
            lemma_expr_within_more(r.v, n, m);
        },
        plain::FunStmtView::Inv(i) => {
            lemma_expr_within_more(i.v, n, m);
        },
        plain::FunStmtView::LetDecl(d) => {
            lemma_expr_within_more(d.v.value, n, m);
        },
        plain::FunStmtView::Assignment(d) => {
            lemma_expr_within_more(d.v.value, n, m);
        },
        plain::FunStmtView::While(w) => {
            lemma_expr_within_more(w.v.condition, n, m);
            lemma_block_within_more(w.v.body.v, n, m);
        },
        plain::FunStmtView::If(i) => {
            lemma_expr_within_more(i.v.condition, n, m);
            lemma_block_within_more(i.v.then_.v, n, m);
            match i.v.else_ {
                Some(e) => {
                    lemma_block_within_more(e.v, n, m);
                },
                None => {},
            }
        },
    }
}

proof fn lemma_block_within_more(stmts: Seq<plain::FunStmtView>, n: nat, m: nat)
    requires
        block_within(stmts, n),
        n <= m,
    ensures
        block_within(stmts, m),
    decreases stmts,
{
    assert forall|i: int| 0 <= i < stmts.len() implies stmt_within(#[trigger] stmts[i], m) by {
        lemma_stmt_within_more(stmts[i], n, m);
    }
}

proof fn lemma_right_absent(pairs: Pairs, v: Seq<char>, from: nat)
    ensures
        match index_of_right(pairs, v, from) {
            Some(i) => from <= i < pairs.len() && pairs[i as int].1 == v,
            None => forall|j: int| from <= j < pairs.len() ==> pairs[j].1 != v,
        },
    decreases pairs.len() - from,
{
    if from < pairs.len() {
        lemma_right_absent(pairs, v, from + 1);
    }
}

proof fn lemma_without_nothing(pairs: Pairs, k: u32, v: Seq<char>, n: nat)
    requires
        n <= pairs.len(),
        forall|j: int| 0 <= j < n ==> pairs[j].0 != k && pairs[j].1 != v,
    ensures
        without(pairs, k, v, n) == pairs.take(n as int),
    decreases n,
{
    if n > 0 {
        lemma_without_nothing(pairs, k, v, (n - 1) as nat);
        assert(pairs.take(n as int) =~= pairs.take(n - 1).push(pairs[n - 1]));
    } else {
        assert(pairs.take(0) =~= Seq::empty());
    }
}

/// In a table as the renamer makes it, every number below the length has its name.
pub proof fn lemma_numbered_has_names(refs: Pairs, id: u32, from: nat)
    requires
        numbered(refs),
        from <= id < refs.len(),
    ensures
        index_of_left(refs, id, from) == Some(id as nat),
        from == 0 ==> name_of(refs, id).is_some(),
    decreases id - from,
{
    if from < id {
        lemma_numbered_has_names(refs, id, from + 1);
    }
}

proof fn lemma_open_name(scope: Scope, input: Name)
    requires
        numbered(scope.globals),
    ensures
        match open_name(scope, input) {
            Ok((s, g)) => numbered(s.globals) && scope.globals.len() <= s.globals.len() && g.id
                < s.globals.len() && s.locals == scope.locals,
            Err(_) => true,
        },
{
    let g = scope.globals;
    lemma_right_absent(g, input.v, 0);
    match number_of(g, input.v) {
        Some(_) => {},
        None => {
            if g.len() < u32::MAX {
                lemma_without_nothing(g, g.len() as u32, input.v, g.len());
                assert(g.take(g.len() as int) =~= g);
                assert(inserted(g, g.len() as u32, input.v) == g.push((g.len() as u32, input.v)));
            }
        },
    }
}

proof fn lemma_call(scope: Scope, name: Name, args: WithLoc<Seq<syntax::ExprView>>)
    requires
        numbered(scope.globals),
    ensures
        match renamed_call(scope, name, args) {
            Ok((s, x)) => numbered(s.globals) && scope.globals.len() <= s.globals.len()
                && expr_within(x, s.globals.len()),
            Err(_) => true,
        },
    decreases args,
{
    lemma_open_name(scope, name);
    match open_name(scope, name) {
        Err(_) => {},
        Ok((s1, _)) => {
            lemma_exprs(s1, args.v, 0, Seq::empty());
        },
    }
}

proof fn lemma_expr(scope: Scope, e: syntax::ExprView)
    requires
        numbered(scope.globals),
    ensures
        match renamed_expr(scope, e) {
            Ok((s, x)) => numbered(s.globals) && scope.globals.len() <= s.globals.len()
                && expr_within(x, s.globals.len()),
            Err(_) => true,
        },
    decreases e,
{
    match e {
        syntax::ExprView::Ident(i) => {
            lemma_open_name(scope, i);
        },
        syntax::ExprView::FunCall(c) => {
            lemma_call(scope, c.name, c.args);
        },
        syntax::ExprView::Infix(x) => {
            lemma_call(scope, x.op, x.operands);
        },
        _ => {},
    }
}

proof fn lemma_exprs(scope: Scope, es: Seq<syntax::ExprView>, k: nat, acc: Seq<plain::ExprView>)
    requires
        numbered(scope.globals),
        exprs_within(acc, scope.globals.len()),
    ensures
        match renamed_exprs(scope, es, k, acc) {
            Ok((s, out)) => numbered(s.globals) && scope.globals.len() <= s.globals.len()
                && exprs_within(out, s.globals.len()),
            Err(_) => true,
        },
    decreases es, es.len() - k,
{
    if k < es.len() {
        lemma_expr(scope, es[k as int]);
        match renamed_expr(scope, es[k as int]) {
            Err(_) => {},
            Ok((s, x)) => {
                lemma_exprs_within_more(acc, scope.globals.len(), s.globals.len());
                let next = acc.push(x);
                assert forall|i: int| 0 <= i < next.len() implies expr_within(
                    #[trigger] next[i],
                    s.globals.len(),
                ) by {
                    if i < acc.len() {
                        assert(next[i] == acc[i]);
                    }
                }
                lemma_exprs(s, es, k + 1, next);
            },
        }
    }
}

proof fn lemma_stmt(scope: Scope, s: syntax::FunStmtView)
    requires
        numbered(scope.globals),
    ensures
        match renamed_stmt(scope, s) {
            Ok((after, x)) => numbered(after.globals) && scope.globals.len()
                <= after.globals.len() && stmt_within(x, after.globals.len()),
            Err(_) => true,
        },
    decreases s,
{
    match s {
        syntax::FunStmtView::Return(r) => {
            lemma_expr(scope, r.v);
        },
        syntax::FunStmtView::Inv(i) => {
            lemma_expr(scope, i.v.v);
        },
        syntax::FunStmtView::LetDecl(d) => {
            match bind_local(scope, d.v.name) {
                Err(_) => {},
                Ok((s1, _)) => {
                    lemma_expr(s1, d.v.value);
                },
            }
        },
        syntax::FunStmtView::Assignment(d) => {
            lemma_expr(scope, d.v.value);
        },
        syntax::FunStmtView::While(w) => {
            lemma_expr(scope, w.v.condition);
            match renamed_expr(scope, w.v.condition) {
                Err(_) => {},
                Ok((s1, condition)) => {
                    lemma_block(s1, w.v.body.v, 0, Seq::empty());
                    match renamed_block(s1, w.v.body.v, 0, Seq::empty()) {
                        Err(_) => {},
                        Ok((s2, _)) => {
                            lemma_expr_within_more(condition, s1.globals.len(), s2.globals.len());
                        },
                    }
                },
            }
        },
        syntax::FunStmtView::If(i) => {
            lemma_expr(scope, i.v.condition);
            match renamed_expr(scope, i.v.condition) {
                Err(_) => {},
                Ok((s1, condition)) => {
                    lemma_block(s1, i.v.then_.v, 0, Seq::empty());
                    match renamed_block(s1, i.v.then_.v, 0, Seq::empty()) {
                        Err(_) => {},
                        Ok((s2, then_body)) => match i.v.else_ {
                            None => {
                                lemma_expr_within_more(
                                    condition,
                                    s1.globals.len(),
                                    s2.globals.len(),
                                );
                            },
                            Some(e) => {
                                lemma_block(s2, e.v, 0, Seq::empty());
                                match renamed_block(s2, e.v, 0, Seq::empty()) {
                                    Err(_) => {},
                                    Ok((s3, _)) => {
                                        lemma_expr_within_more(
                                            condition,
                                            s1.globals.len(),
                                            s3.globals.len(),
                                        );
                                        lemma_block_within_more(
                                            then_body,
                                            s2.globals.len(),
                                            s3.globals.len(),
                                        );
                                    },
                                }
                            },
                        },
                    }
                },
            }
        },
    }
}

proof fn lemma_block(
    scope: Scope,
    stmts: Seq<syntax::FunStmtView>,
    k: nat,
    acc: Seq<plain::FunStmtView>,
)
    requires
        numbered(scope.globals),
        block_within(acc, scope.globals.len()),
    ensures
        match renamed_block(scope, stmts, k, acc) {
            Ok((after, out)) => numbered(after.globals) && scope.globals.len()
                <= after.globals.len() && block_within(out, after.globals.len()),
            Err(_) => true,
        },
    decreases stmts, stmts.len() - k,
{
    if k < stmts.len() {
        lemma_stmt(scope, stmts[k as int]);
        match renamed_stmt(scope, stmts[k as int]) {
            Err(_) => {},
            Ok((s, x)) => {
                lemma_block_within_more(acc, scope.globals.len(), s.globals.len());
                let next = acc.push(x);
                assert forall|i: int| 0 <= i < next.len() implies stmt_within(
                    #[trigger] next[i],
                    s.globals.len(),
                ) by {
                    if i < acc.len() {
                        assert(next[i] == acc[i]);
                    }
                }
                lemma_block(s, stmts, k + 1, next);
            },
        }
    }
}

proof fn lemma_params(scope: Scope, params: Seq<Name>, k: nat, acc: Seq<WithLoc<LocalIdent>>)
    ensures
        match bound_params(scope, params, k, acc) {
            Ok((after, _)) => after.globals == scope.globals,
            Err(_) => true,
        },
    decreases params.len() - k,
{
    if k < params.len() {
        match bind_local(scope, params[k as int]) {
            Err(_) => {},
            Ok((s, x)) => {
                lemma_params(s, params, k + 1, acc.push(x));
            },
        }
    }
}

/// The references table of a renamed function holds every number that the
/// body uses: each open name of the body has a number below the length of
/// the table, and the table numbers its names by position.
pub proof fn lemma_references_are_complete(f: syntax::FunDefView)
    ensures
        match renamed_function(f) {
            Ok(g) => numbered(g.refs) && block_within(g.implementation.body.v, g.refs.len()),
            Err(_) => true,
        },
{
    lemma_params(empty_scope(), f.params.v, 0, Seq::empty());
    match bound_params(empty_scope(), f.params.v, 0, Seq::empty()) {
        Err(_) => {},
        Ok((s1, _)) => {
            lemma_block(s1, f.body.v, 0, Seq::empty());
        },
    }
}

} // verus!
