use vstd::prelude::*;
use crate::parser::syntax;
use crate::renamer::error::ErrorView;
use crate::renamer::plain;
use crate::renamer::plain::LocalIdent;
use crate::renamer::renamer::{
    bind_local, binding_of, bound_params, empty_scope, local_of, open_name, renamed_block,
    renamed_call, renamed_expr, renamed_exprs, renamed_stmt, Name, Scope,
};
use crate::util::loc::WithLoc;

verus! {

/// `b` binds what `a` binds, to the same locals, and maybe more.
pub open spec fn keeps_bindings(a: Scope, b: Scope) -> bool {
    a.locals.len() <= b.locals.len() && forall|i: int|
        0 <= i < a.locals.len() ==> a.locals[i] == b.locals[i]
}

proof fn lemma_binding_stays(a: Seq<Name>, b: Seq<Name>, name: Seq<char>, from: nat)
    requires
        a.len() <= b.len(),
        forall|i: int| 0 <= i < a.len() ==> a[i] == b[i],
        binding_of(a, name, from).is_some(),
    ensures
        binding_of(b, name, from) == binding_of(a, name, from),
    decreases a.len() - from,
{
    if from < a.len() && a[from as int].v != name {
        lemma_binding_stays(a, b, name, from + 1);
    }
}

proof fn lemma_call_binds_nothing(scope: Scope, name: Name, args: WithLoc<Seq<syntax::ExprView>>)
    ensures
        match renamed_call(scope, name, args) {
            Ok((s, _)) => s.locals == scope.locals,
            Err(_) => true,
        },
    decreases args,
{
    match open_name(scope, name) {
        Err(_) => {},
        Ok((s1, _)) => {
            lemma_exprs_bind_nothing(s1, args.v, 0, Seq::empty());
        },
    }
}

proof fn lemma_expr_binds_nothing(scope: Scope, e: syntax::ExprView)
    ensures
        match renamed_expr(scope, e) {
            Ok((s, _)) => s.locals == scope.locals,
            Err(_) => true,
        },
    decreases e,
{
    match e {
        syntax::ExprView::FunCall(c) => {
            lemma_call_binds_nothing(scope, c.name, c.args);
        },
        syntax::ExprView::Infix(x) => {
            lemma_call_binds_nothing(scope, x.op, x.operands);
        },
        _ => {},
    }
}

proof fn lemma_exprs_bind_nothing(
    scope: Scope,
    es: Seq<syntax::ExprView>,
    k: nat,
    acc: Seq<plain::ExprView>,
)
    ensures
        match renamed_exprs(scope, es, k, acc) {
            Ok((s, _)) => s.locals == scope.locals,
            Err(_) => true,
        },
    decreases es, es.len() - k,
{
    if k < es.len() {
        lemma_expr_binds_nothing(scope, es[k as int]);
        match renamed_expr(scope, es[k as int]) {
            Err(_) => {},
            Ok((s, x)) => {
                lemma_exprs_bind_nothing(s, es, k + 1, acc.push(x));
            },
        }
    }
}

/// A statement only adds bindings: what was bound before it stays bound to
/// the same local after it, whatever blocks the statement holds.
pub proof fn lemma_stmt_keeps_bindings(scope: Scope, s: syntax::FunStmtView)
    ensures
        match renamed_stmt(scope, s) {
            Ok((after, _)) => keeps_bindings(scope, after),
            Err(_) => true,
        },
    decreases s,
{
    match s {
        syntax::FunStmtView::Return(r) => {
            lemma_expr_binds_nothing(scope, r.v);
        },
        syntax::FunStmtView::Inv(i) => {
            lemma_expr_binds_nothing(scope, i.v.v);
        },
        syntax::FunStmtView::LetDecl(d) => {
            match bind_local(scope, d.v.name) {
                Err(_) => {},
                Ok((s1, _)) => {
                    lemma_expr_binds_nothing(s1, d.v.value);
                },
            }
        },
        syntax::FunStmtView::While(w) => {
            lemma_expr_binds_nothing(scope, w.v.condition);
            match renamed_expr(scope, w.v.condition) {
                Err(_) => {},
                Ok((s1, _)) => {
                    lemma_block_keeps_bindings(s1, w.v.body.v, 0, Seq::empty());
                },
            }
        },
        syntax::FunStmtView::Assignment(d) => {
            lemma_expr_binds_nothing(scope, d.v.value);
        },
        syntax::FunStmtView::If(i) => {
            lemma_expr_binds_nothing(scope, i.v.condition);
            match renamed_expr(scope, i.v.condition) {
                Err(_) => {},
                Ok((s1, _)) => {
                    lemma_block_keeps_bindings(s1, i.v.then_.v, 0, Seq::empty());
                    match renamed_block(s1, i.v.then_.v, 0, Seq::empty()) {
                        Err(_) => {},
                        Ok((s2, _)) => match i.v.else_ {
                            None => {},
                            Some(e) => {
                                lemma_block_keeps_bindings(s2, e.v, 0, Seq::empty());
                            },
                        },
                    }
                },
            }
        },
    }
}

/// A block only adds bindings.
pub proof fn lemma_block_keeps_bindings(
    scope: Scope,
    stmts: Seq<syntax::FunStmtView>,
    k: nat,
    acc: Seq<plain::FunStmtView>,
)
    ensures
        match renamed_block(scope, stmts, k, acc) {
            Ok((after, _)) => keeps_bindings(scope, after),
            Err(_) => true,
        },
    decreases stmts, stmts.len() - k,
{
    if k < stmts.len() {
        lemma_stmt_keeps_bindings(scope, stmts[k as int]);
        match renamed_stmt(scope, stmts[k as int]) {
            Err(_) => {},
            Ok((s, x)) => {
                lemma_block_keeps_bindings(s, stmts, k + 1, acc.push(x));
            },
        }
    }
}

/// The scope of a function is flat: the scope after a `while` is the scope
/// at the end of its body, so that a name which the body binds is bound
/// after the loop, and assignable there.
pub proof fn lemma_while_shares_the_scope(
    scope: Scope,
    w: WithLoc<syntax::WhileView>,
    name: Seq<char>,
)
    ensures
        match renamed_stmt(scope, syntax::FunStmtView::While(w)) {
            Ok((after, _)) => match renamed_expr(scope, w.v.condition) {
                Ok((s1, _)) => match renamed_block(s1, w.v.body.v, 0, Seq::empty()) {
                    Ok((inside, _)) => after == inside && local_of(after, name) == local_of(
                        inside,
                        name,
                    ),
                    Err(_) => false,
                },
                Err(_) => false,
            },
            Err(_) => true,
        },
{
}

/// A name that is bound stays bound to the same local for the rest of its
/// function: no later statement, and no block inside one, shadows or frees it.
pub proof fn lemma_bound_names_stay_bound(
    scope: Scope,
    stmts: Seq<syntax::FunStmtView>,
    name: Seq<char>,
)
    requires
        local_of(scope, name).is_some(),
    ensures
        match renamed_block(scope, stmts, 0, Seq::empty()) {
            Ok((after, _)) => local_of(after, name) == local_of(scope, name),
            Err(_) => true,
        },
{
    lemma_block_keeps_bindings(scope, stmts, 0, Seq::empty());
    match renamed_block(scope, stmts, 0, Seq::empty()) {
        Err(_) => {},
        Ok((after, _)) => {
            lemma_binding_stays(scope.locals, after.locals, name, 0);
        },
    }
}

/// The error, if there is one, says that the names ran out.
pub open spec fn fails_only_for_room<T>(r: Result<T, ErrorView>) -> bool {
    match r {
        Err(e) => e is TooManyIdentifiers,
        Ok(_) => true,
    }
}

proof fn lemma_call_fails_only_for_room(
    scope: Scope,
    name: Name,
    args: WithLoc<Seq<syntax::ExprView>>,
)
    ensures
        fails_only_for_room(renamed_call(scope, name, args)),
    decreases args,
{
    match open_name(scope, name) {
        Err(_) => {},
        Ok((s1, _)) => {
            lemma_exprs_fail_only_for_room(s1, args.v, 0, Seq::empty());
        },
    }
}

/// A name that nothing defines is no error of renaming: an expression, with
/// all the names that it reads and calls, renames unless the numbers run out.
pub proof fn lemma_expr_fails_only_for_room(scope: Scope, e: syntax::ExprView)
    ensures
        fails_only_for_room(renamed_expr(scope, e)),
    decreases e,
{
    match e {
        syntax::ExprView::FunCall(c) => {
            lemma_call_fails_only_for_room(scope, c.name, c.args);
        },
        syntax::ExprView::Infix(x) => {
            lemma_call_fails_only_for_room(scope, x.op, x.operands);
        },
        _ => {},
    }
}

proof fn lemma_exprs_fail_only_for_room(
    scope: Scope,
    es: Seq<syntax::ExprView>,
    k: nat,
    acc: Seq<plain::ExprView>,
)
    ensures
        fails_only_for_room(renamed_exprs(scope, es, k, acc)),
    decreases es, es.len() - k,
{
    if k < es.len() {
        lemma_expr_fails_only_for_room(scope, es[k as int]);
        match renamed_expr(scope, es[k as int]) {
            Err(_) => {},
            Ok((s, x)) => {
                lemma_exprs_fail_only_for_room(s, es, k + 1, acc.push(x));
            },
        }
    }
}

/// No name is bound twice.
pub open spec fn distinct_names(locals: Seq<Name>) -> bool {
    forall|i: int, j: int| 0 <= i < j < locals.len() ==> locals[i].v != locals[j].v
}

proof fn lemma_unbound_is_absent(locals: Seq<Name>, name: Seq<char>, from: nat)
    ensures
        binding_of(locals, name, from).is_none() ==> forall|j: int|
            from <= j < locals.len() ==> locals[j].v != name,
    decreases locals.len() - from,
{
    if from < locals.len() {
        lemma_unbound_is_absent(locals, name, from + 1);
    }
}

proof fn lemma_bind_keeps_distinct(scope: Scope, input: Name)
    requires
        distinct_names(scope.locals),
    ensures
        match bind_local(scope, input) {
            Ok((s, _)) => distinct_names(s.locals),
            Err(_) => true,
        },
{
    lemma_unbound_is_absent(scope.locals, input.v, 0);
}

proof fn lemma_stmt_keeps_distinct(scope: Scope, s: syntax::FunStmtView)
    requires
        distinct_names(scope.locals),
    ensures
        match renamed_stmt(scope, s) {
            Ok((after, _)) => distinct_names(after.locals),
            Err(_) => true,
        },
    decreases s,
{
    match s {
        syntax::FunStmtView::Return(r) => {
            lemma_expr_binds_nothing(scope, r.v);
        },
        syntax::FunStmtView::Inv(i) => {
            lemma_expr_binds_nothing(scope, i.v.v);
        },
        syntax::FunStmtView::LetDecl(d) => {
            lemma_bind_keeps_distinct(scope, d.v.name);
            match bind_local(scope, d.v.name) {
                Err(_) => {},
                Ok((s1, _)) => {
                    lemma_expr_binds_nothing(s1, d.v.value);
                },
            }
        },
        syntax::FunStmtView::While(w) => {
            lemma_expr_binds_nothing(scope, w.v.condition);
            match renamed_expr(scope, w.v.condition) {
                Err(_) => {},
                Ok((s1, _)) => {
                    lemma_block_keeps_distinct(s1, w.v.body.v, 0, Seq::empty());
                },
            }
        },
        syntax::FunStmtView::Assignment(d) => {
            lemma_expr_binds_nothing(scope, d.v.value);
        },
        syntax::FunStmtView::If(i) => {
            lemma_expr_binds_nothing(scope, i.v.condition);
            match renamed_expr(scope, i.v.condition) {
                Err(_) => {},
                Ok((s1, _)) => {
                    lemma_block_keeps_distinct(s1, i.v.then_.v, 0, Seq::empty());
                    match renamed_block(s1, i.v.then_.v, 0, Seq::empty()) {
                        Err(_) => {},
                        Ok((s2, _)) => match i.v.else_ {
                            None => {},
                            Some(e) => {
                                lemma_block_keeps_distinct(s2, e.v, 0, Seq::empty());
                            },
                        },
                    }
                },
            }
        },
    }
}

proof fn lemma_block_keeps_distinct(
    scope: Scope,
    stmts: Seq<syntax::FunStmtView>,
    k: nat,
    acc: Seq<plain::FunStmtView>,
)
    requires
        distinct_names(scope.locals),
    ensures
        match renamed_block(scope, stmts, k, acc) {
            Ok((after, _)) => distinct_names(after.locals),
            Err(_) => true,
        },
    decreases stmts, stmts.len() - k,
{
    if k < stmts.len() {
        lemma_stmt_keeps_distinct(scope, stmts[k as int]);
        match renamed_stmt(scope, stmts[k as int]) {
            Err(_) => {},
            Ok((s, x)) => {
                lemma_block_keeps_distinct(s, stmts, k + 1, acc.push(x));
            },
        }
    }
}

proof fn lemma_params_keep_distinct(
    scope: Scope,
    params: Seq<Name>,
    k: nat,
    acc: Seq<WithLoc<LocalIdent>>,
)
    requires
        distinct_names(scope.locals),
    ensures
        match bound_params(scope, params, k, acc) {
            Ok((after, _)) => distinct_names(after.locals),
            Err(_) => true,
        },
    decreases params.len() - k,
{
    if k < params.len() {
        lemma_bind_keeps_distinct(scope, params[k as int]);
        match bind_local(scope, params[k as int]) {
            Err(_) => {},
            Ok((s, x)) => {
                lemma_params_keep_distinct(s, params, k + 1, acc.push(x));
            },
        }
    }
}

/// The scope of a function when all of it is renamed.
pub open spec fn function_scope(f: syntax::FunDefView) -> Option<Scope> {
    match bound_params(empty_scope(), f.params.v, 0, Seq::empty()) {
        Err(_) => None,
        Ok((s1, _)) => match renamed_block(s1, f.body.v, 0, Seq::empty()) {
            Err(_) => None,
            Ok((s2, _)) => Some(s2),
        },
    }
}

/// A second binding of a name is never accepted: in a function that renames,
/// the parameters and the `let`s bind names that differ pair by pair, and the
/// number of a local is the position of its binding.
pub proof fn lemma_no_name_is_bound_twice(f: syntax::FunDefView)
    ensures
        match function_scope(f) {
            Some(scope) => distinct_names(scope.locals) && forall|i: int|
                0 <= i < scope.locals.len() ==> binding_of(
                    scope.locals,
                    #[trigger] scope.locals[i].v,
                    0,
                ) == Some(i as nat),
            None => true,
        },
{
    lemma_params_keep_distinct(empty_scope(), f.params.v, 0, Seq::empty());
    match bound_params(empty_scope(), f.params.v, 0, Seq::empty()) {
        Err(_) => {},
        Ok((s1, _)) => {
            lemma_block_keeps_distinct(s1, f.body.v, 0, Seq::empty());
            match renamed_block(s1, f.body.v, 0, Seq::empty()) {
                Err(_) => {},
                Ok((s2, _)) => {
                    assert forall|i: int| 0 <= i < s2.locals.len() implies binding_of(
                        s2.locals,
                        #[trigger] s2.locals[i].v,
                        0,
                    ) == Some(i as nat) by {
                        lemma_binding_is_position(s2.locals, i, 0);
                    }
                },
            }
        },
    }
}

proof fn lemma_binding_is_position(locals: Seq<Name>, i: int, from: nat)
    requires
        distinct_names(locals),
        0 <= from <= i < locals.len(),
    ensures
        binding_of(locals, locals[i].v, from) == Some(i as nat),
    decreases i - from,
{
    if from < i {
        lemma_binding_is_position(locals, i, from + 1);
    }
}

} // verus!
