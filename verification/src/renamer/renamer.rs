use vstd::prelude::*;
use crate::parser::syntax;
use crate::parser::syntax::{duplicate_lident, lident_view};
use crate::renamer::error::{
    DuplicateIdentifierError, Error, ErrorView, IdentifierNotFoundError, TooManyIdentifiersError,
};
use crate::renamer::plain;
use crate::renamer::plain::{LocalIdent, UnresolvedIdent};
use crate::util::ax::Ax;
use crate::util::bimap::{inserted, number_of, Bimap, Pairs};
use crate::util::loc::WithLoc;

verus! {

/// A name with the place where it stands.
pub type Name = WithLoc<Seq<char>>;

/// The scope of one function while it is renamed. `locals` holds the bound
/// names in the order of their binding, each with the place of its binding: a
/// local's number is its position. `globals` numbers the names left open.
pub struct Scope {
    pub locals: Seq<Name>,
    pub globals: Pairs,
}

/// What a step of renaming gives: the scope after it and the step's result,
/// or the error that ends the renaming.
pub type Step<T> = Result<(Scope, T), ErrorView>;

/// The position of the first binding of `name` at or after `from`.
pub open spec fn binding_of(locals: Seq<Name>, name: Seq<char>, from: nat) -> Option<nat>
    decreases locals.len() - from,
{
    if from >= locals.len() {
        None
    } else if locals[from as int].v == name {
        Some(from)
    } else {
        binding_of(locals, name, from + 1)
    }
}

/// The scope of a function before its parameters are bound.
pub open spec fn empty_scope() -> Scope {
    Scope { locals: Seq::empty(), globals: Seq::empty() }
}

/// Binds `input` as a new local: an error if the name is bound already.
pub open spec fn bind_local(scope: Scope, input: Name) -> Step<WithLoc<LocalIdent>> {
    match binding_of(scope.locals, input.v, 0) {
        Some(i) => Err(
            ErrorView::DuplicateIdentifier { error: input, original_loc: scope.locals[i as int].a },
        ),
        None => if scope.locals.len() >= u32::MAX {
            Err(ErrorView::TooManyIdentifiers { identifier: input })
        } else {
            Ok(
                (
                    Scope { locals: scope.locals.push(input), globals: scope.globals },
                    Ax { a: input.a, v: LocalIdent { id: scope.locals.len() as u32 } },
                ),
            )
        },
    }
}

/// The number of the open name `input`: the one it has, else the next free one.
pub open spec fn open_name(scope: Scope, input: Name) -> Step<UnresolvedIdent> {
    match number_of(scope.globals, input.v) {
        Some(id) => Ok((scope, UnresolvedIdent { id })),
        None => if scope.globals.len() >= u32::MAX {
            Err(ErrorView::TooManyIdentifiers { identifier: input })
        } else {
            Ok(
                (
                    Scope {
                        locals: scope.locals,
                        globals: inserted(scope.globals, scope.globals.len() as u32, input.v),
                    },
                    UnresolvedIdent { id: scope.globals.len() as u32 },
                ),
            )
        },
    }
}

/// The local that `name` is bound to, if any.
pub open spec fn local_of(scope: Scope, name: Seq<char>) -> Option<LocalIdent> {
    match binding_of(scope.locals, name, 0) {
        Some(i) => Some(LocalIdent { id: i as u32 }),
        None => None,
    }
}

/// A name that is read: the local it is bound to, else an open name.
pub open spec fn read_name(scope: Scope, input: Name) -> Step<plain::Ident> {
    match local_of(scope, input.v) {
        Some(l) => Ok((scope, plain::Ident::Local(Ax { a: input.a, v: l }))),
        None => match open_name(scope, input) {
            Ok((s, g)) => Ok((s, plain::Ident::Global(Ax { a: input.a, v: g }))),
            Err(e) => Err(e),
        },
    }
}

/// An expression renamed. The callee of a call is an open name, numbered
/// before the arguments are renamed; an operator between operands is a call of
/// the operator's name.
pub open spec fn renamed_expr(scope: Scope, e: syntax::ExprView) -> Step<plain::ExprView>
    decreases e,
{
    match e {
        syntax::ExprView::LitNum(n) => Ok((scope, plain::ExprView::LitNum(n))),
        syntax::ExprView::LitStr(s) => Ok((scope, plain::ExprView::LitStr(s))),
        syntax::ExprView::Ident(i) => match read_name(scope, i) {
            Ok((s, id)) => Ok((s, plain::ExprView::Ident(id))),
            Err(e) => Err(e),
        },
        syntax::ExprView::FunCall(c) => renamed_call(scope, c.name, c.args),
        syntax::ExprView::Infix(x) => renamed_call(scope, x.op, x.operands),
    }
}

/// A call of `name` on `args`, renamed.
pub open spec fn renamed_call(scope: Scope, name: Name, args: WithLoc<Seq<syntax::ExprView>>) -> Step<
    plain::ExprView,
>
    decreases args,
{
    match open_name(scope, name) {
        Err(e) => Err(e),
        Ok((s1, g)) => match renamed_exprs(s1, args.v, 0, Seq::empty()) {
            Err(e) => Err(e),
            Ok((s2, out)) => Ok(
                (
                    s2,
                    plain::ExprView::FunCall(
                        plain::FunCallView {
                            name: Ax { a: name.a, v: g },
                            args: Ax { a: args.a, v: out },
                        },
                    ),
                ),
            ),
        },
    }
}

/// The expressions of `es` from position `k` on, renamed left to right and
/// added to `acc`.
pub open spec fn renamed_exprs(
    scope: Scope,
    es: Seq<syntax::ExprView>,
    k: nat,
    acc: Seq<plain::ExprView>,
) -> Step<Seq<plain::ExprView>>
    decreases es, es.len() - k,
{
    if k >= es.len() {
        Ok((scope, acc))
    } else {
        match renamed_expr(scope, es[k as int]) {
            Err(e) => Err(e),
            Ok((s, x)) => renamed_exprs(s, es, k + 1, acc.push(x)),
        }
    }
}

/// A statement renamed. A `let` binds its name before its value is renamed;
/// an assignment needs a bound name. Blocks share the function's one scope.
pub open spec fn renamed_stmt(scope: Scope, s: syntax::FunStmtView) -> Step<plain::FunStmtView>
    decreases s,
{
    match s {
        syntax::FunStmtView::Return(r) => match renamed_expr(scope, r.v) {
            Err(e) => Err(e),
            Ok((s1, x)) => Ok((s1, plain::FunStmtView::Return(Ax { a: r.a, v: x }))),
        },
        syntax::FunStmtView::Inv(i) => match renamed_expr(scope, i.v.v) {
            Err(e) => Err(e),
            Ok((s1, x)) => Ok((s1, plain::FunStmtView::Inv(Ax { a: i.a, v: x }))),
        },
        syntax::FunStmtView::LetDecl(d) => match bind_local(scope, d.v.name) {
            Err(e) => Err(e),
            Ok((s1, name)) => match renamed_expr(s1, d.v.value) {
                Err(e) => Err(e),
                Ok((s2, value)) => Ok(
                    (
                        s2,
                        plain::FunStmtView::LetDecl(
                            Ax { a: d.a, v: plain::LetDeclView { name, value } },
                        ),
                    ),
                ),
            },
        },
        syntax::FunStmtView::While(w) => match renamed_expr(scope, w.v.condition) {
            Err(e) => Err(e),
            Ok((s1, condition)) => match renamed_block(s1, w.v.body.v, 0, Seq::empty()) {
                Err(e) => Err(e),
                Ok((s2, body)) => Ok(
                    (
                        s2,
                        plain::FunStmtView::While(
                            Ax {
                                a: w.a,
                                v: plain::WhileView {
                                    condition,
                                    body: Ax { a: w.v.body.a, v: body },
                                },
                            },
                        ),
                    ),
                ),
            },
        },
        syntax::FunStmtView::Assignment(d) => match local_of(scope, d.v.name.v) {
            None => Err(ErrorView::IdentifierNotFound { identifier: d.v.name }),
            Some(l) => match renamed_expr(scope, d.v.value) {
                Err(e) => Err(e),
                Ok((s1, value)) => Ok(
                    (
                        s1,
                        plain::FunStmtView::Assignment(
                            Ax {
                                a: d.a,
                                v: plain::AssignmentView {
                                    id: Ax { a: d.v.name.a, v: l },
                                    value,
                                },
                            },
                        ),
                    ),
                ),
            },
        },
        syntax::FunStmtView::If(i) => match renamed_expr(scope, i.v.condition) {
            Err(e) => Err(e),
            Ok((s1, condition)) => match renamed_block(s1, i.v.then_.v, 0, Seq::empty()) {
                Err(e) => Err(e),
                Ok((s2, then_body)) => match i.v.else_ {
                    None => Ok(
                        (
                            s2,
                            plain::FunStmtView::If(
                                Ax {
                                    a: i.a,
                                    v: plain::IfView {
                                        condition,
                                        then_: Ax { a: i.v.then_.a, v: then_body },
                                        else_: None,
                                    },
                                },
                            ),
                        ),
                    ),
                    Some(e) => match renamed_block(s2, e.v, 0, Seq::empty()) {
                        Err(e) => Err(e),
                        Ok((s3, else_body)) => Ok(
                            (
                                s3,
                                plain::FunStmtView::If(
                                    Ax {
                                        a: i.a,
                                        v: plain::IfView {
                                            condition,
                                            then_: Ax { a: i.v.then_.a, v: then_body },
                                            else_: Some(Ax { a: e.a, v: else_body }),
                                        },
                                    },
                                ),
                            ),
                        ),
                    },
                },
            },
        },
    }
}

/// The statements of `stmts` from position `k` on, renamed in order and added to `acc`.
pub open spec fn renamed_block(
    scope: Scope,
    stmts: Seq<syntax::FunStmtView>,
    k: nat,
    acc: Seq<plain::FunStmtView>,
) -> Step<Seq<plain::FunStmtView>>
    decreases stmts, stmts.len() - k,
{
    if k >= stmts.len() {
        Ok((scope, acc))
    } else {
        match renamed_stmt(scope, stmts[k as int]) {
            Err(e) => Err(e),
            Ok((s, x)) => renamed_block(s, stmts, k + 1, acc.push(x)),
        }
    }
}

/// The parameters from position `k` on, bound in order and added to `acc`.
pub open spec fn bound_params(scope: Scope, params: Seq<Name>, k: nat, acc: Seq<WithLoc<LocalIdent>>) -> Step<
    Seq<WithLoc<LocalIdent>>,
>
    decreases params.len() - k,
{
    if k >= params.len() {
        Ok((scope, acc))
    } else {
        match bind_local(scope, params[k as int]) {
            Err(e) => Err(e),
            Ok((s, x)) => bound_params(s, params, k + 1, acc.push(x)),
        }
    }
}

/// A function renamed in a scope of its own: the parameters are bound first,
/// the body follows, the predicates are dropped, and the names left open make
/// up the references table.
pub open spec fn renamed_function(f: syntax::FunDefView) -> Result<plain::FunDefView, ErrorView> {
    match bound_params(empty_scope(), f.params.v, 0, Seq::empty()) {
        Err(e) => Err(e),
        Ok((s1, params)) => match renamed_block(s1, f.body.v, 0, Seq::empty()) {
            Err(e) => Err(e),
            Ok((s2, body)) => Ok(
                plain::FunDefView {
                    name: f.name,
                    implementation: plain::FunImplView {
                        params: Ax { a: f.params.a, v: params },
                        preds: Ax { a: f.preds.a, v: Seq::empty() },
                        body: Ax { a: f.body.a, v: body },
                    },
                    refs: s2.globals,
                },
            ),
        },
    }
}

/// A top-level statement renamed.
pub open spec fn renamed_statement(s: syntax::TopLevelStmtView) -> Result<
    plain::TopLevelStmtView,
    ErrorView,
> {
    match s {
        syntax::TopLevelStmtView::FunDef(f) => match renamed_function(f.v) {
            Err(e) => Err(e),
            Ok(g) => Ok(plain::TopLevelStmtView::FunDef(Ax { a: f.a, v: g })),
        },
    }
}

/// The top-level statements from position `k` on, renamed in order and added
/// to `acc`; the first error ends it.
pub open spec fn renamed_statements(
    stmts: Seq<syntax::TopLevelStmtView>,
    k: nat,
    acc: Seq<plain::TopLevelStmtView>,
) -> Result<Seq<plain::TopLevelStmtView>, ErrorView>
    decreases stmts.len() - k,
{
    if k >= stmts.len() {
        Ok(acc)
    } else {
        match renamed_statement(stmts[k as int]) {
            Err(e) => Err(e),
            Ok(x) => renamed_statements(stmts, k + 1, acc.push(x)),
        }
    }
}

/// A program renamed: each function by itself, in order.
pub open spec fn renamed_module(m: syntax::ModuleView) -> Result<plain::ModuleView, ErrorView> {
    match renamed_statements(m.statements.v, 0, Seq::empty()) {
        Err(e) => Err(e),
        Ok(statements) => Ok(plain::ModuleView { statements }),
    }
}

/// Resolves every name of `input`. A parameter or a `let` binds a new local
/// and fails on a name that its function has bound already; an assignment
/// fails on a name that is not bound; a name that is read is the local it is
/// bound to, else a reference left to the linker.
pub fn rename(input: &syntax::Module) -> (r: Result<plain::Module, Error>)
    ensures
        match r {
            Ok(m) => renamed_module(input@) == Ok::<plain::ModuleView, ErrorView>(m@),
            Err(e) => renamed_module(input@) == Err::<plain::ModuleView, ErrorView>(e@),
        },
{
    let mut ret: Vec<plain::TopLevelStmt> = Vec::new();
    let mut k: usize = 0;
    let ghost stmts = input@.statements.v;
    assert(Seq::new(ret@.len(), |i: int| ret@[i]@) =~= Seq::empty());
    while k < input.statements.v.len()
        invariant
            k <= input.statements.v.len(),
            stmts == input@.statements.v,
            stmts.len() == input.statements.v@.len(),
            renamed_statements(stmts, 0, Seq::empty()) == renamed_statements(
                stmts,
                k as nat,
                Seq::new(ret@.len(), |i: int| ret@[i]@),
            ),
        decreases input.statements.v.len() - k,
    {
        let ghost acc = Seq::new(ret@.len(), |i: int| ret@[i]@);
        assert(stmts[k as int] == input.statements.v@[k as int]@);
        match rename_statement(&input.statements.v[k]) {
            Err(e) => {
                return Err(e);
            },
            Ok(x) => {
                ret.push(x);
                assert(Seq::new(ret@.len(), |i: int| ret@[i]@) =~= acc.push(x@));
            },
        }
        k += 1;
    }
    Ok(plain::Module { statements: ret })
}

fn rename_statement(input: &syntax::TopLevelStmt) -> (r: Result<plain::TopLevelStmt, Error>)
    ensures
        match r {
            Ok(s) => renamed_statement(input@) == Ok::<plain::TopLevelStmtView, ErrorView>(s@),
            Err(e) => renamed_statement(input@) == Err::<plain::TopLevelStmtView, ErrorView>(e@),
        },
{
    match input {
        syntax::TopLevelStmt::FunDef(fun) => {
            match rename_function(&fun.v) {
                Err(e) => Err(e),
                Ok(f) => Ok(plain::TopLevelStmt::FunDef(Ax { a: fun.a, v: f })),
            }
        },
    }
}

fn rename_function(input: &syntax::FunDef) -> (r: Result<plain::FunDef, Error>)
    ensures
        match r {
            Ok(f) => renamed_function(input@) == Ok::<plain::FunDefView, ErrorView>(f@),
            Err(e) => renamed_function(input@) == Err::<plain::FunDefView, ErrorView>(e@),
        },
{
    let mut env = RenamerEnv::new();
    let mut params: Vec<WithLoc<LocalIdent>> = Vec::new();
    let mut k: usize = 0;
    let ghost ps = input@.params.v;
    while k < input.params.v.len()
        invariant
            k <= input.params.v.len(),
            ps == input@.params.v,
            ps.len() == input.params.v@.len(),
            env.wf(),
            bound_params(empty_scope(), ps, 0, Seq::empty()) == bound_params(
                env@,
                ps,
                k as nat,
                params@,
            ),
        decreases input.params.v.len() - k,
    {
        assert(ps[k as int] == lident_view(input.params.v@[k as int]));
        match env.mk_new_local(&input.params.v[k]) {
            Err(e) => {
                return Err(e);
            },
            Ok(p) => {
                params.push(p);
            },
        }
        k += 1;
    }
    let body = match rename_block(&mut env, &input.body.v) {
        Err(e) => {
            return Err(e);
        },
        Ok(b) => b,
    };
    let preds: Vec<plain::Expr> = Vec::new();
    assert(plain::exprs_view(preds@) =~= Seq::empty());
    Ok(
        plain::FunDef {
            name: duplicate_lident(&input.name),
            implementation: plain::FunImpl {
                params: Ax { a: input.params.a, v: params },
                preds: Ax { a: input.preds.a, v: preds },
                body: Ax { a: input.body.a, v: body },
            },
            refs: env.globals,
        },
    )
}

fn rename_block(env: &mut RenamerEnv, stmts: &Vec<syntax::FunStmt>) -> (r: Result<
    Vec<plain::FunStmt>,
    Error,
>)
    requires
        old(env).wf(),
    ensures
        final(env).wf(),
        match r {
            Ok(b) => renamed_block(old(env)@, syntax::stmts_view(stmts@), 0, Seq::empty()) == Ok::<
                (Scope, Seq<plain::FunStmtView>),
                ErrorView,
            >((final(env)@, plain::stmts_view(b@))),
            Err(e) => renamed_block(old(env)@, syntax::stmts_view(stmts@), 0, Seq::empty()) == Err::<
                (Scope, Seq<plain::FunStmtView>),
                ErrorView,
            >(e@),
        },
    decreases stmts,
{
    let mut out: Vec<plain::FunStmt> = Vec::new();
    let mut k: usize = 0;
    let ghost views = syntax::stmts_view(stmts@);
    let ghost start = env@;
    assert(plain::stmts_view(out@) =~= Seq::empty());
    while k < stmts.len()
        invariant
            k <= stmts.len(),
            views == syntax::stmts_view(stmts@),
            env.wf(),
            start == old(env)@,
            renamed_block(start, views, 0, Seq::empty()) == renamed_block(
                env@,
                views,
                k as nat,
                plain::stmts_view(out@),
            ),
        decreases stmts.len() - k,
    {
        let ghost acc = plain::stmts_view(out@);
        assert(views[k as int] == stmts@[k as int]@);
        match rename_fun_statement(env, &stmts[k]) {
            Err(e) => {
                return Err(e);
            },
            Ok(x) => {
                out.push(x);
                assert(plain::stmts_view(out@) =~= acc.push(x@));
            },
        }
        k += 1;
    }
    Ok(out)
}

fn rename_fun_statement(env: &mut RenamerEnv, input: &syntax::FunStmt) -> (r: Result<
    plain::FunStmt,
    Error,
>)
    requires
        old(env).wf(),
    ensures
        final(env).wf(),
        match r {
            Ok(s) => renamed_stmt(old(env)@, input@) == Ok::<(Scope, plain::FunStmtView), ErrorView>(
                (final(env)@, s@),
            ),
            Err(e) => renamed_stmt(old(env)@, input@) == Err::<
                (Scope, plain::FunStmtView),
                ErrorView,
            >(e@),
        },
    decreases input,
{
    match input {
        syntax::FunStmt::LetDecl(decl) => {
            let name = match env.mk_new_local(&decl.v.name) {
                Err(e) => {
                    return Err(e);
                },
                Ok(n) => n,
            };
            let value = match rename_expr(env, &decl.v.value) {
                Err(e) => {
                    return Err(e);
                },
                Ok(v) => v,
            };
            Ok(plain::FunStmt::LetDecl(Ax { a: decl.a, v: plain::LetDecl { name, value } }))
        },
        syntax::FunStmt::Return(ret) => {
            match rename_expr(env, &ret.v.0) {
                Err(e) => Err(e),
                Ok(x) => Ok(plain::FunStmt::Return(Ax { a: ret.a, v: plain::Return(x) })),
            }
        },
        syntax::FunStmt::Inv(inv) => {
            match rename_expr(env, &inv.v.value.v) {
                Err(e) => Err(e),
                Ok(x) => Ok(plain::FunStmt::Inv(Ax { a: inv.a, v: x })),
            }
        },
        syntax::FunStmt::While(while_stmt) => {
            let condition = match rename_expr(env, &while_stmt.v.condition) {
                Err(e) => {
                    return Err(e);
                },
                Ok(c) => c,
            };
            let body = match rename_block(env, &while_stmt.v.body.v) {
                Err(e) => {
                    return Err(e);
                },
                Ok(b) => b,
            };
            Ok(
                plain::FunStmt::While(
                    Ax {
                        a: while_stmt.a,
                        v: plain::While { condition, body: Ax { a: while_stmt.v.body.a, v: body } },
                    },
                ),
            )
        },
        syntax::FunStmt::Assignment(assignment) => {
            let id = match env.resolve_local(&assignment.v.name.v) {
                Some(x) => x,
                None => {
                    return Err(
                        Error::IdentifierNotFound(
                            IdentifierNotFoundError {
                                identifier: duplicate_lident(&assignment.v.name),
                            },
                        ),
                    );
                },
            };
            let value = match rename_expr(env, &assignment.v.value) {
                Err(e) => {
                    return Err(e);
                },
                Ok(v) => v,
            };
            Ok(
                plain::FunStmt::Assignment(
                    Ax {
                        a: assignment.a,
                        v: plain::Assignment { id: Ax { a: assignment.v.name.a, v: id }, value },
                    },
                ),
            )
        },
        syntax::FunStmt::If(if_stmt) => {
            let condition = match rename_expr(env, &if_stmt.v.condition) {
                Err(e) => {
                    return Err(e);
                },
                Ok(c) => c,
            };
            let then_body = match rename_block(env, &if_stmt.v.then_.v) {
                Err(e) => {
                    return Err(e);
                },
                Ok(b) => b,
            };
            let else_ = match &if_stmt.v.else_ {
                None => None,
                Some(e) => {
                    match rename_block(env, &e.v) {
                        Err(e) => {
                            return Err(e);
                        },
                        Ok(b) => Some(Ax { a: e.a, v: b }),
                    }
                },
            };
            Ok(
                plain::FunStmt::If(
                    Ax {
                        a: if_stmt.a,
                        v: plain::If {
                            condition,
                            then_: Ax { a: if_stmt.v.then_.a, v: then_body },
                            else_,
                        },
                    },
                ),
            )
        },
    }
}

fn rename_expr(env: &mut RenamerEnv, input: &syntax::Expr) -> (r: Result<plain::Expr, Error>)
    requires
        old(env).wf(),
    ensures
        final(env).wf(),
        match r {
            Ok(x) => renamed_expr(old(env)@, input@) == Ok::<(Scope, plain::ExprView), ErrorView>(
                (final(env)@, x@),
            ),
            Err(e) => renamed_expr(old(env)@, input@) == Err::<(Scope, plain::ExprView), ErrorView>(
                e@,
            ),
        },
    decreases input,
{
    match input {
        syntax::Expr::LitNum(x) => Ok(plain::Expr::LitNum(*x)),
        syntax::Expr::LitStr(x) => Ok(
            plain::Expr::LitStr(Ax { a: x.a, v: syntax::LitStr(x.v.0.clone()) }),
        ),
        syntax::Expr::Ident(x) => {
            match env.resolve(x) {
                Err(e) => Err(e),
                Ok(id) => Ok(plain::Expr::Ident(id)),
            }
        },
        syntax::Expr::FunCall(x) => rename_fun_call(env, &x.name, &x.args),
        syntax::Expr::Infix(x) => rename_fun_call(env, &x.op, &x.operands),
    }
}

fn rename_fun_call(
    env: &mut RenamerEnv,
    name: &WithLoc<syntax::Ident>,
    args: &WithLoc<Vec<syntax::Expr>>,
) -> (r: Result<plain::Expr, Error>)
    requires
        old(env).wf(),
    ensures
        final(env).wf(),
        match r {
            Ok(x) => renamed_call(
                old(env)@,
                lident_view(*name),
                Ax { a: args.a, v: syntax::exprs_view(args.v@) },
            ) == Ok::<(Scope, plain::ExprView), ErrorView>((final(env)@, x@)),
            Err(e) => renamed_call(
                old(env)@,
                lident_view(*name),
                Ax { a: args.a, v: syntax::exprs_view(args.v@) },
            ) == Err::<(Scope, plain::ExprView), ErrorView>(e@),
        },
    decreases args,
{
    let callee = match env.get_global(name) {
        Err(e) => {
            return Err(e);
        },
        Ok(g) => g,
    };
    let mut out: Vec<plain::Expr> = Vec::new();
    let mut k: usize = 0;
    let ghost views = syntax::exprs_view(args.v@);
    let ghost start = env@;
    assert(plain::exprs_view(out@) =~= Seq::empty());
    while k < args.v.len()
        invariant
            k <= args.v.len(),
            views == syntax::exprs_view(args.v@),
            env.wf(),
            open_name(old(env)@, lident_view(*name)) == Ok::<(Scope, UnresolvedIdent), ErrorView>(
                (start, callee),
            ),
            renamed_exprs(start, views, 0, Seq::empty()) == renamed_exprs(
                env@,
                views,
                k as nat,
                plain::exprs_view(out@),
            ),
        decreases args.v.len() - k,
    {
        let ghost acc = plain::exprs_view(out@);
        assert(views[k as int] == args.v@[k as int]@);
        match rename_expr(env, &args.v[k]) {
            Err(e) => {
                return Err(e);
            },
            Ok(x) => {
                out.push(x);
                assert(plain::exprs_view(out@) =~= acc.push(x@));
            },
        }
        k += 1;
    }
    Ok(
        plain::Expr::FunCall(
            plain::FunCall { name: Ax { a: name.a, v: callee }, args: Ax { a: args.a, v: out } },
        ),
    )
}

/// The scope of the function that is being renamed.
pub struct RenamerEnv {
    locals: Vec<WithLoc<syntax::Ident>>,
    globals: Bimap,
}

impl View for RenamerEnv {
    type V = Scope;

    closed spec fn view(&self) -> Scope {
        Scope { locals: syntax::lidents_view(self.locals@), globals: self.globals@ }
    }
}

impl RenamerEnv {
    /// Every local has a number of 32 bits.
    pub closed spec fn wf(&self) -> bool {
        self.locals@.len() <= u32::MAX
    }

    /// The scope of a function before its parameters are bound.
    pub fn new() -> (r: Self)
        ensures
            r@ == empty_scope(),
            r.wf(),
    {
        let r = RenamerEnv { locals: Vec::new(), globals: Bimap::new() };
        assert(r@.locals =~= Seq::empty());
        r
    }

    fn find_local(&self, name: &syntax::Ident) -> (r: Option<usize>)
        requires
            self.wf(),
        ensures
            match r {
                Some(i) => binding_of(self@.locals, name@, 0) == Some(i as nat) && i
                    < self.locals@.len(),
                None => binding_of(self@.locals, name@, 0).is_none(),
            },
    {
        let mut i: usize = 0;
        while i < self.locals.len()
            invariant
                i <= self.locals.len(),
                binding_of(self@.locals, name@, 0) == binding_of(self@.locals, name@, i as nat),
            decreases self.locals.len() - i,
        {
            assert(self@.locals[i as int] == lident_view(self.locals@[i as int]));
            if self.locals[i].v.same(name) {
                return Some(i);
            }
            i += 1;
        }
        None
    }

    /// Binds `input` as a new local of the function.
    pub fn mk_new_local(&mut self, input: &WithLoc<syntax::Ident>) -> (r: Result<
        WithLoc<LocalIdent>,
        Error,
    >)
        requires
            old(self).wf(),
        ensures
            final(self).wf(),
            match r {
                Ok(l) => bind_local(old(self)@, lident_view(*input)) == Ok::<
                    (Scope, WithLoc<LocalIdent>),
                    ErrorView,
                >((final(self)@, l)),
                Err(e) => bind_local(old(self)@, lident_view(*input)) == Err::<
                    (Scope, WithLoc<LocalIdent>),
                    ErrorView,
                >(e@),
            },
    {
        match self.find_local(&input.v) {
            Some(i) => {
                assert(self@.locals[i as int] == lident_view(self.locals@[i as int]));
                Err(
                    Error::DuplicateIdentifier(
                        DuplicateIdentifierError {
                            error: duplicate_lident(input),
                            original_loc: self.locals[i].a,
                        },
                    ),
                )
            },
            None => {
                if self.locals.len() >= 0xffff_ffff {
                    return Err(
                        Error::TooManyIdentifiers(
                            TooManyIdentifiersError { identifier: duplicate_lident(input) },
                        ),
                    );
                }
                let id = self.locals.len() as u32;
                let ghost before = self@.locals;
                self.locals.push(duplicate_lident(input));
                assert(self@.locals =~= before.push(lident_view(*input)));
                Ok(Ax { a: input.a, v: LocalIdent { id } })
            },
        }
    }

    /// The number of the open name `input`.
    pub fn get_global(&mut self, input: &WithLoc<syntax::Ident>) -> (r: Result<
        UnresolvedIdent,
        Error,
    >)
        requires
            old(self).wf(),
        ensures
            final(self).wf(),
            match r {
                Ok(g) => open_name(old(self)@, lident_view(*input)) == Ok::<
                    (Scope, UnresolvedIdent),
                    ErrorView,
                >((final(self)@, g)),
                Err(e) => open_name(old(self)@, lident_view(*input)) == Err::<
                    (Scope, UnresolvedIdent),
                    ErrorView,
                >(e@),
            },
    {
        match self.globals.get_by_right(&input.v) {
            Some(x) => Ok(*x),
            None => {
                if self.globals.len() >= 0xffff_ffff {
                    return Err(
                        Error::TooManyIdentifiers(
                            TooManyIdentifiersError { identifier: duplicate_lident(input) },
                        ),
                    );
                }
                let pid = UnresolvedIdent { id: self.globals.len() as u32 };
                self.globals.insert(pid, input.v.duplicate());
                Ok(pid)
            },
        }
    }

    /// The local that `input` is bound to, if any.
    pub fn resolve_local(&self, input: &syntax::Ident) -> (r: Option<LocalIdent>)
        requires
            self.wf(),
        ensures
            r == local_of(self@, input@),
    {
        match self.find_local(input) {
            Some(i) => {
                Some(LocalIdent { id: i as u32 })
            },
            None => None,
        }
    }

    /// A name that is read: the local it is bound to, else an open name.
    pub fn resolve(&mut self, input: &WithLoc<syntax::Ident>) -> (r: Result<plain::Ident, Error>)
        requires
            old(self).wf(),
        ensures
            final(self).wf(),
            match r {
                Ok(i) => read_name(old(self)@, lident_view(*input)) == Ok::<
                    (Scope, plain::Ident),
                    ErrorView,
                >((final(self)@, i)),
                Err(e) => read_name(old(self)@, lident_view(*input)) == Err::<
                    (Scope, plain::Ident),
                    ErrorView,
                >(e@),
            },
    {
        match self.resolve_local(&input.v) {
            Some(x) => Ok(plain::Ident::Local(Ax { a: input.a, v: x })),
            None => {
                match self.get_global(input) {
                    Err(e) => Err(e),
                    Ok(g) => Ok(plain::Ident::Global(Ax { a: input.a, v: g })),
                }
            },
        }
    }
}

} // verus!
