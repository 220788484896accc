use vstd::prelude::*;
use crate::parser::syntax::duplicate_lident;
use crate::renamer::plain;
use crate::renamer::plain::{expr_location, LocalIdent};
use crate::simplifier::error::Error;
use crate::simplifier::optimizations;
use crate::simplifier::simple;
use crate::simplifier::simple::{lemma_stmts_view_push, stmts_view, top_level_views};
use crate::util::ax::Ax;
use crate::util::loc::{intern, tag_of, Located, SrcLoc, Tag, TagMap, Tagged, WithLoc, WithTag};

verus! {

/// The statements made so far.
pub type Instrs = Seq<simple::FunStmtView>;

/// What the lowering of one function keeps: the number of the next temporary
/// and the tag table.
pub struct Lowering {
    pub next: u32,
    pub tags: Seq<SrcLoc>,
}

/// The state before a function is lowered: temporaries start at 1.
pub open spec fn initial_lowering() -> Lowering {
    Lowering { next: 1, tags: Seq::empty() }
}

/// The tag of `loc`, interned in the tag table.
pub open spec fn tagged(st: Lowering, loc: SrcLoc) -> Result<(Lowering, Tag), Error> {
    if st.tags.len() >= u32::MAX {
        Err(Error::TooManyTags(loc))
    } else {
        Ok((Lowering { next: st.next, tags: intern(st.tags, loc) }, tag_of(st.tags, loc)))
    }
}

/// A temporary that no statement uses yet; `loc` is where it is needed.
pub open spec fn fresh_temp(st: Lowering, loc: SrcLoc) -> Result<
    (Lowering, simple::SingleUseIdent),
    Error,
> {
    if st.next == u32::MAX {
        Err(Error::TooManyTemporaries(loc))
    } else {
        Ok(
            (
                Lowering { next: (st.next + 1) as u32, tags: st.tags },
                simple::SingleUseIdent { id: st.next },
            ),
        )
    }
}

/// A local with the tag of its place.
pub open spec fn widened_local(st: Lowering, l: WithLoc<LocalIdent>) -> Result<
    (Lowering, simple::Ident),
    Error,
> {
    match tagged(st, l.a) {
        Err(e) => Err(e),
        Ok((s, tag)) => Ok((s, simple::Ident::Local(Ax { a: tag, v: l.v }))),
    }
}

/// An identifier that is read: a local goes on as it is, a name left open has no value.
pub open spec fn widened(st: Lowering, id: plain::Ident) -> Result<(Lowering, simple::Ident), Error> {
    match id {
        plain::Ident::Local(l) => widened_local(st, l),
        plain::Ident::Global(g) => Err(Error::GlobalRead(g)),
    }
}

/// The statement that assigns `value` to `target`, tagged `tag`.
pub open spec fn assignment(tag: Tag, target: simple::Ident, value: simple::AssignmentValueView) -> simple::FunStmtView {
    simple::FunStmtView::Assignment(Ax { a: tag, v: simple::AssignmentView { target, value } })
}

/// An expression lowered: the statements that compute it are added to `acc`,
/// and the identifier that holds its value comes back. A number goes into a
/// new temporary; a local is read where it is; a call lowers its arguments
/// left to right and puts its result into a new temporary.
pub open spec fn lowered_expr(st: Lowering, acc: Instrs, e: plain::ExprView) -> Result<
    (Lowering, Instrs, simple::Ident),
    Error,
>
    decreases e,
{
    match e {
        plain::ExprView::LitNum(n) => match tagged(st, n.a) {
            Err(e) => Err(e),
            Ok((s1, tag)) => match fresh_temp(s1, n.a) {
                Err(e) => Err(e),
                Ok((s2, id)) => {
                    let sid = simple::Ident::SingleUse(Ax { a: tag, v: id });
                    Ok(
                        (
                            s2,
                            acc.push(
                                assignment(
                                    tag,
                                    sid,
                                    simple::AssignmentValueView::LitNum(Ax { a: tag, v: n.v }),
                                ),
                            ),
                            sid,
                        ),
                    )
                },
            },
        },
        plain::ExprView::LitStr(s) => Err(Error::StringLiteral(s.a)),
        plain::ExprView::Ident(i) => match widened(st, i) {
            Err(e) => Err(e),
            Ok((s1, id)) => Ok((s1, acc, id)),
        },
        plain::ExprView::FunCall(c) => match tagged(st, plain::call_location(c)) {
            Err(e) => Err(e),
            Ok((s1, tag)) => match lowered_exprs(s1, acc, c.args.v, 0, Seq::empty()) {
                Err(e) => Err(e),
                Ok((s2, acc2, ps)) => match fresh_temp(s2, plain::call_location(c)) {
                    Err(e) => Err(e),
                    Ok((s3, id)) => match tagged(s3, c.name.a) {
                        Err(e) => Err(e),
                        Ok((s4, name_tag)) => {
                            let target = simple::Ident::SingleUse(Ax { a: tag, v: id });
                            let call = simple::CallView {
                                fun_name: Ax { a: name_tag, v: c.name.v },
                                arguments: Ax { a: tag, v: ps },
                            };
                            Ok(
                                (
                                    s4,
                                    acc2.push(
                                        assignment(
                                            tag,
                                            target,
                                            simple::AssignmentValueView::Call(
                                                Ax { a: tag, v: call },
                                            ),
                                        ),
                                    ),
                                    target,
                                ),
                            )
                        },
                    },
                },
            },
        },
    }
}

/// The expressions of `es` from position `k` on, lowered left to right; the
/// identifiers that hold their values are added to `ps`.
pub open spec fn lowered_exprs(
    st: Lowering,
    acc: Instrs,
    es: Seq<plain::ExprView>,
    k: nat,
    ps: Seq<simple::Ident>,
) -> Result<(Lowering, Instrs, Seq<simple::Ident>), Error>
    decreases es, es.len() - k,
{
    if k >= es.len() {
        Ok((st, acc, ps))
    } else {
        match lowered_expr(st, acc, es[k as int]) {
            Err(e) => Err(e),
            Ok((s, acc2, id)) => lowered_exprs(s, acc2, es, k + 1, ps.push(id)),
        }
    }
}

/// The test at the top of a lowered `while`: go on if `condition` holds, else leave the loop.
pub open spec fn loop_test(condition: simple::Ident) -> simple::FunStmtView {
    simple::FunStmtView::If(
        simple::IfView {
            condition,
            then_: Ax { a: condition.spec_tag(), v: Seq::empty() },
            else_: Some(Ax { a: condition.spec_tag(), v: seq![simple::FunStmtView::Break] }),
        },
    )
}

/// An assignment to the local `name` lowered: the value first, the store last.
pub open spec fn lowered_store(
    st: Lowering,
    acc: Instrs,
    loc: SrcLoc,
    name: WithLoc<LocalIdent>,
    value: plain::ExprView,
) -> Result<(Lowering, Instrs), Error> {
    match tagged(st, loc) {
        Err(e) => Err(e),
        Ok((s1, tag)) => match lowered_expr(s1, acc, value) {
            Err(e) => Err(e),
            Ok((s2, acc2, body)) => match widened_local(s2, name) {
                Err(e) => Err(e),
                Ok((s3, target)) => Ok(
                    (s3, acc2.push(assignment(tag, target, simple::AssignmentValueView::Ident(body)))),
                ),
            },
        },
    }
}

/// A statement lowered: what it becomes is added to `acc`. A `while` becomes
/// a loop whose body starts with the computation of the condition and the
/// test that leaves the loop.
pub open spec fn lowered_stmt(st: Lowering, acc: Instrs, s: plain::FunStmtView) -> Result<
    (Lowering, Instrs),
    Error,
>
    decreases s,
{
    match s {
        plain::FunStmtView::Return(r) => match lowered_expr(st, acc, r.v) {
            Err(e) => Err(e),
            Ok((s1, acc1, body)) => Ok((s1, acc1.push(simple::FunStmtView::Return(body)))),
        },
        plain::FunStmtView::Inv(i) => Err(Error::Invariant(i.a)),
        plain::FunStmtView::LetDecl(d) => lowered_store(st, acc, d.a, d.v.name, d.v.value),
        plain::FunStmtView::Assignment(d) => lowered_store(st, acc, d.a, d.v.id, d.v.value),
        plain::FunStmtView::While(w) => match tagged(st, w.a) {
            Err(e) => Err(e),
            Ok((s1, tag)) => match lowered_expr(s1, Seq::empty(), w.v.condition) {
                Err(e) => Err(e),
                Ok((s2, head, condition)) => match lowered_block(
                    s2,
                    head.push(loop_test(condition)),
                    w.v.body.v,
                    0,
                ) {
                    Err(e) => Err(e),
                    Ok((s3, body)) => Ok(
                        (
                            s3,
                            acc.push(
                                simple::FunStmtView::Loop(
                                    Ax { a: tag, v: simple::LoopView { body: Ax { a: tag, v: body } } },
                                ),
                            ),
                        ),
                    ),
                },
            },
        },
        plain::FunStmtView::If(i) => match lowered_expr(st, acc, i.v.condition) {
            Err(e) => Err(e),
            Ok((s1, acc1, condition)) => match lowered_block(s1, Seq::empty(), i.v.then_.v, 0) {
                Err(e) => Err(e),
                Ok((s2, then_body)) => match i.v.else_ {
                    None => match tagged(s2, expr_location(i.v.condition)) {
                        Err(e) => Err(e),
                        Ok((s3, then_tag)) => Ok(
                            (
                                s3,
                                acc1.push(
                                    simple::FunStmtView::If(
                                        simple::IfView {
                                            condition,
                                            then_: Ax { a: then_tag, v: then_body },
                                            else_: None,
                                        },
                                    ),
                                ),
                            ),
                        ),
                    },
                    Some(e) => match lowered_block(s2, Seq::empty(), e.v, 0) {
                        Err(e) => Err(e),
                        Ok((s3, else_body)) => match tagged(s3, expr_location(i.v.condition)) {
                            Err(e) => Err(e),
                            Ok((s4, then_tag)) => match tagged(s4, e.a) {
                                Err(e) => Err(e),
                                Ok((s5, else_tag)) => Ok(
                                    (
                                        s5,
                                        acc1.push(
                                            simple::FunStmtView::If(
                                                simple::IfView {
                                                    condition,
                                                    then_: Ax { a: then_tag, v: then_body },
                                                    else_: Some(Ax { a: else_tag, v: else_body }),
                                                },
                                            ),
                                        ),
                                    ),
                                ),
                            },
                        },
                    },
                },
            },
        },
    }
}

/// The statements of `stmts` from position `k` on, lowered in order onto `acc`.
pub open spec fn lowered_block(st: Lowering, acc: Instrs, stmts: Seq<plain::FunStmtView>, k: nat) -> Result<
    (Lowering, Instrs),
    Error,
>
    decreases stmts, stmts.len() - k,
{
    if k >= stmts.len() {
        Ok((st, acc))
    } else {
        match lowered_stmt(st, acc, stmts[k as int]) {
            Err(e) => Err(e),
            Ok((s, acc2)) => lowered_block(s, acc2, stmts, k + 1),
        }
    }
}

/// The parameters from position `k` on, each with the tag of its place, added to `acc`.
pub open spec fn tagged_params(
    st: Lowering,
    params: Seq<WithLoc<LocalIdent>>,
    k: nat,
    acc: Seq<WithTag<LocalIdent>>,
) -> Result<(Lowering, Seq<WithTag<LocalIdent>>), Error>
    decreases params.len() - k,
{
    if k >= params.len() {
        Ok((st, acc))
    } else {
        match tagged(st, params[k as int].a) {
            Err(e) => Err(e),
            Ok((s, tag)) => tagged_params(s, params, k + 1, acc.push(Ax { a: tag, v: params[k as int].v })),
        }
    }
}

/// The body and the parameters of a function lowered, with the tag table
/// that resolves their tags: the body is lowered first, the tags of the
/// parameters, of the parameter list and of the body follow.
pub open spec fn lowered_fun_impl(f: plain::FunImplView) -> Result<
    (simple::FunImplView, Seq<SrcLoc>),
    Error,
> {
    match lowered_block(initial_lowering(), Seq::empty(), f.body.v, 0) {
        Err(e) => Err(e),
        Ok((s1, body)) => match tagged_params(s1, f.params.v, 0, Seq::empty()) {
            Err(e) => Err(e),
            Ok((s2, params)) => match tagged(s2, f.params.a) {
                Err(e) => Err(e),
                Ok((s3, params_tag)) => match tagged(s3, f.body.a) {
                    Err(e) => Err(e),
                    Ok((s4, body_tag)) => Ok(
                        (
                            simple::FunImplView {
                                parameters: Ax { a: params_tag, v: params },
                                body: Ax { a: body_tag, v: body },
                            },
                            s4.tags,
                        ),
                    ),
                },
            },
        },
    }
}

/// A function lowered; its name and its references table go on unchanged.
pub open spec fn lowered_fun_decl(f: plain::FunDefView) -> Result<simple::FunDeclView, Error> {
    match lowered_fun_impl(f.implementation) {
        Err(e) => Err(e),
        Ok((implementation, tag_map)) => Ok(
            simple::FunDeclView { name: f.name, implementation, tag_map, refs: f.refs },
        ),
    }
}

/// A top-level statement lowered.
pub open spec fn lowered_top_level(s: plain::TopLevelStmtView) -> Result<
    simple::TopLevelStmtView,
    Error,
> {
    match s {
        plain::TopLevelStmtView::FunDef(f) => match lowered_fun_decl(f.v) {
            Err(e) => Err(e),
            Ok(d) => Ok(simple::TopLevelStmtView::FunDecl(Ax { a: f.a, v: d })),
        },
    }
}

/// The top-level statements from position `k` on, lowered in order and added to `acc`.
pub open spec fn lowered_statements(
    stmts: Seq<plain::TopLevelStmtView>,
    k: nat,
    acc: Seq<simple::TopLevelStmtView>,
) -> Result<Seq<simple::TopLevelStmtView>, Error>
    decreases stmts.len() - k,
{
    if k >= stmts.len() {
        Ok(acc)
    } else {
        match lowered_top_level(stmts[k as int]) {
            Err(e) => Err(e),
            Ok(x) => lowered_statements(stmts, k + 1, acc.push(x)),
        }
    }
}

/// A program lowered, before the peephole pass.
pub open spec fn lowered_module(m: plain::ModuleView) -> Result<simple::ModuleView, Error> {
    match lowered_statements(m.statements, 0, Seq::empty()) {
        Err(e) => Err(e),
        Ok(statements) => Ok(simple::ModuleView { statements }),
    }
}

/// A program in the flat form: lowered, then passed through the peephole pass.
pub open spec fn simplified_module(m: plain::ModuleView) -> Result<simple::ModuleView, Error> {
    match lowered_module(m) {
        Err(e) => Err(e),
        Ok(l) => Ok(optimizations::optimized_module(l)),
    }
}

/// Brings a renamed program into the flat form: every expression becomes a
/// row of assignments whose operands are identifiers, every `while` a loop
/// that tests its condition at the top, and the peephole pass runs last.
pub fn run(fun: &plain::Module) -> (r: Result<simple::Module, Error>)
    ensures
        match r {
            Ok(m) => simplified_module(fun@) == Ok::<simple::ModuleView, Error>(m@),
            Err(e) => simplified_module(fun@) == Err::<simple::ModuleView, Error>(e),
        },
{
    let mut statements: Vec<simple::TopLevelStmt> = Vec::new();
    let mut k: usize = 0;
    let ghost stmts = fun@.statements;
    assert(top_level_views(statements@) =~= Seq::empty());
    while k < fun.statements.len()
        invariant
            k <= fun.statements.len(),
            stmts == fun@.statements,
            stmts.len() == fun.statements@.len(),
            lowered_statements(stmts, 0, Seq::empty()) == lowered_statements(
                stmts,
                k as nat,
                top_level_views(statements@),
            ),
        decreases fun.statements.len() - k,
    {
        let ghost acc = top_level_views(statements@);
        assert(stmts[k as int] == fun.statements@[k as int]@);
        match simplify_top_level_stmt(&fun.statements[k]) {
            Err(e) => {
                return Err(e);
            },
            Ok(x) => {
                statements.push(x);
                assert(top_level_views(statements@) =~= acc.push(x@));
            },
        }
        k += 1;
    }
    let mut initial = simple::Module { statements };
    optimizations::run(&mut initial);
    Ok(initial)
}

fn simplify_top_level_stmt(stmt: &plain::TopLevelStmt) -> (r: Result<simple::TopLevelStmt, Error>)
    ensures
        match r {
            Ok(s) => lowered_top_level(stmt@) == Ok::<simple::TopLevelStmtView, Error>(s@),
            Err(e) => lowered_top_level(stmt@) == Err::<simple::TopLevelStmtView, Error>(e),
        },
{
    match stmt {
        plain::TopLevelStmt::FunDef(fun) => {
            match simplify_fun_decl(&fun.v) {
                Err(e) => Err(e),
                Ok(d) => Ok(simple::TopLevelStmt::FunDecl(Ax { a: fun.a, v: d })),
            }
        },
    }
}

fn simplify_fun_decl(fun: &plain::FunDef) -> (r: Result<simple::FunDecl, Error>)
    ensures
        match r {
            Ok(d) => lowered_fun_decl(fun@) == Ok::<simple::FunDeclView, Error>(d@),
            Err(e) => lowered_fun_decl(fun@) == Err::<simple::FunDeclView, Error>(e),
        },
{
    match simply_fun_impl(&fun.implementation) {
        Err(e) => Err(e),
        Ok((implementation, tag_map)) => Ok(
            simple::FunDecl {
                name: duplicate_lident(&fun.name),
                implementation,
                tag_map,
                refs: fun.refs.duplicate(),
            },
        ),
    }
}

/// Lowers the body and the parameters of one function, and gives the tag
/// table that resolves the tags of the result.
pub fn simply_fun_impl(fun: &plain::FunImpl) -> (r: Result<(simple::FunImpl, TagMap), Error>)
    ensures
        match r {
            Ok((f, tags)) => lowered_fun_impl(fun@) == Ok::<
                (simple::FunImplView, Seq<SrcLoc>),
                Error,
            >((f@, tags@)),
            Err(e) => lowered_fun_impl(fun@) == Err::<(simple::FunImplView, Seq<SrcLoc>), Error>(e),
        },
{
    let mut state = SimplifyFunImplState::new();
    let mut instrs: Vec<simple::FunStmt> = Vec::new();
    assert(stmts_view(instrs@) =~= Seq::empty());
    match simplify_block(&mut state, &mut instrs, &fun.body.v) {
        Err(e) => {
            return Err(e);
        },
        Ok(()) => {},
    }
    let ghost s1 = state@;
    let mut params: Vec<WithTag<LocalIdent>> = Vec::new();
    let mut k: usize = 0;
    while k < fun.params.v.len()
        invariant
            k <= fun.params.v.len(),
            lowered_block(initial_lowering(), Seq::empty(), fun@.body.v, 0) == Ok::<
                (Lowering, Instrs),
                Error,
            >((s1, stmts_view(instrs@))),
            tagged_params(s1, fun.params.v@, 0, Seq::empty()) == tagged_params(
                state@,
                fun.params.v@,
                k as nat,
                params@,
            ),
        decreases fun.params.v.len() - k,
    {
        let tag = match state.tag(fun.params.v[k].a) {
            Err(e) => {
                return Err(e);
            },
            Ok(t) => t,
        };
        params.push(Ax { a: tag, v: fun.params.v[k].v });
        k += 1;
    }
    let params_tag = match state.tag(fun.params.a) {
        Err(e) => {
            return Err(e);
        },
        Ok(t) => t,
    };
    let body_tag = match state.tag(fun.body.a) {
        Err(e) => {
            return Err(e);
        },
        Ok(t) => t,
    };
    Ok(
        (
            simple::FunImpl {
                parameters: Ax { a: params_tag, v: params },
                body: Ax { a: body_tag, v: instrs },
            },
            state.tag_map,
        ),
    )
}

fn simplify_block(
    state: &mut SimplifyFunImplState,
    instrs: &mut Vec<simple::FunStmt>,
    stmts: &Vec<plain::FunStmt>,
) -> (r: Result<(), Error>)
    ensures
        match r {
            Ok(()) => lowered_block(
                old(state)@,
                stmts_view(old(instrs)@),
                plain::stmts_view(stmts@),
                0,
            ) == Ok::<(Lowering, Instrs), Error>((final(state)@, stmts_view(final(instrs)@))),
            Err(e) => lowered_block(
                old(state)@,
                stmts_view(old(instrs)@),
                plain::stmts_view(stmts@),
                0,
            ) == Err::<(Lowering, Instrs), Error>(e),
        },
    decreases stmts,
{
    let mut k: usize = 0;
    let ghost views = plain::stmts_view(stmts@);
    while k < stmts.len()
        invariant
            k <= stmts.len(),
            views == plain::stmts_view(stmts@),
            lowered_block(old(state)@, stmts_view(old(instrs)@), views, 0) == lowered_block(
                state@,
                stmts_view(instrs@),
                views,
                k as nat,
            ),
        decreases stmts.len() - k,
    {
        assert(views[k as int] == stmts@[k as int]@);
        match simplify_stmt(state, instrs, &stmts[k]) {
            Err(e) => {
                return Err(e);
            },
            Ok(()) => {},
        }
        k += 1;
    }
    Ok(())
}

fn simplify_store(
    state: &mut SimplifyFunImplState,
    instrs: &mut Vec<simple::FunStmt>,
    loc: SrcLoc,
    name: WithLoc<LocalIdent>,
    value: &plain::Expr,
) -> (r: Result<(), Error>)
    ensures
        match r {
            Ok(()) => lowered_store(old(state)@, stmts_view(old(instrs)@), loc, name, value@) == Ok::<
                (Lowering, Instrs),
                Error,
            >((final(state)@, stmts_view(final(instrs)@))),
            Err(e) => lowered_store(old(state)@, stmts_view(old(instrs)@), loc, name, value@) == Err::<
                (Lowering, Instrs),
                Error,
            >(e),
        },
    decreases value,
{
    let tag = match state.tag(loc) {
        Err(e) => {
            return Err(e);
        },
        Ok(t) => t,
    };
    let body = match state.compile_expr(instrs, value) {
        Err(e) => {
            return Err(e);
        },
        Ok(b) => b,
    };
    let target = match state.widen_local(name) {
        Err(e) => {
            return Err(e);
        },
        Ok(t) => t,
    };
    let stmt = simple::FunStmt::Assignment(
        Ax { a: tag, v: simple::Assignment { target, value: simple::AssignmentValue::Ident(body) } },
    );
    proof {
        lemma_stmts_view_push(instrs@, stmt);
    }
    instrs.push(stmt);
    Ok(())
}

fn simplify_stmt(
    state: &mut SimplifyFunImplState,
    instrs: &mut Vec<simple::FunStmt>,
    stmt: &plain::FunStmt,
) -> (r: Result<(), Error>)
    ensures
        match r {
            Ok(()) => lowered_stmt(old(state)@, stmts_view(old(instrs)@), stmt@) == Ok::<
                (Lowering, Instrs),
                Error,
            >((final(state)@, stmts_view(final(instrs)@))),
            Err(e) => lowered_stmt(old(state)@, stmts_view(old(instrs)@), stmt@) == Err::<
                (Lowering, Instrs),
                Error,
            >(e),
        },
    decreases stmt,
{
    match stmt {
        plain::FunStmt::Return(expr) => {
            let body = match state.compile_expr(instrs, &expr.v.0) {
                Err(e) => {
                    return Err(e);
                },
                Ok(b) => b,
            };
            let s = simple::FunStmt::Return(body);
            proof {
                lemma_stmts_view_push(instrs@, s);
            }
            instrs.push(s);
            Ok(())
        },
        plain::FunStmt::Inv(inv) => Err(Error::Invariant(inv.a)),
        plain::FunStmt::LetDecl(l_decl) => simplify_store(
            state,
            instrs,
            l_decl.a,
            l_decl.v.name,
            &l_decl.v.value,
        ),
        plain::FunStmt::Assignment(l_assign) => simplify_store(
            state,
            instrs,
            l_assign.a,
            l_assign.v.id,
            &l_assign.v.value,
        ),
        plain::FunStmt::While(l_while) => {
            let tag = match state.tag(l_while.a) {
                Err(e) => {
                    return Err(e);
                },
                Ok(t) => t,
            };
            let mut loop_instrs: Vec<simple::FunStmt> = Vec::new();
            assert(stmts_view(loop_instrs@) =~= Seq::empty());
            // Add the break condition
            let condition = match state.compile_expr(&mut loop_instrs, &l_while.v.condition) {
                Err(e) => {
                    return Err(e);
                },
                Ok(c) => c,
            };
            let nothing: Vec<simple::FunStmt> = Vec::new();
            let mut leave: Vec<simple::FunStmt> = Vec::new();
            leave.push(simple::FunStmt::Break());
            let test = simple::FunStmt::If(
                simple::If {
                    condition,
                    then_: Ax { a: condition.tag(), v: nothing },
                    else_: Some(Ax { a: condition.tag(), v: leave }),
                },
            );
            proof {
                assert(stmts_view(nothing@) =~= Seq::empty());
                assert(stmts_view(leave@) =~= seq![simple::FunStmtView::Break]);
                assert(test@ == loop_test(condition));
                lemma_stmts_view_push(loop_instrs@, test);
            }
            loop_instrs.push(test);
            // Add the rest of the body
            match simplify_block(state, &mut loop_instrs, &l_while.v.body.v) {
                Err(e) => {
                    return Err(e);
                },
                Ok(()) => {},
            }
            // Insert the loop
            let s = simple::FunStmt::Loop(
                Ax { a: tag, v: simple::Loop { body: Ax { a: tag, v: loop_instrs } } },
            );
            proof {
                lemma_stmts_view_push(instrs@, s);
            }
            instrs.push(s);
            Ok(())
        },
        plain::FunStmt::If(l_if) => {
            let condition = match state.compile_expr(instrs, &l_if.v.condition) {
                Err(e) => {
                    return Err(e);
                },
                Ok(c) => c,
            };
            let mut then_instrs: Vec<simple::FunStmt> = Vec::new();
            let mut else_instrs: Vec<simple::FunStmt> = Vec::new();
            assert(stmts_view(then_instrs@) =~= Seq::empty());
            assert(stmts_view(else_instrs@) =~= Seq::empty());
            match simplify_block(state, &mut then_instrs, &l_if.v.then_.v) {
                Err(e) => {
                    return Err(e);
                },
                Ok(()) => {},
            }
            match &l_if.v.else_ {
                None => {},
                Some(e) => {
                    match simplify_block(state, &mut else_instrs, &e.v) {
                        Err(e) => {
                            return Err(e);
                        },
                        Ok(()) => {},
                    }
                },
            }
            let then_tag = match state.tag(l_if.v.condition.location()) {
                Err(e) => {
                    return Err(e);
                },
                Ok(t) => t,
            };
            let else_ = match &l_if.v.else_ {
                None => None,
                Some(e) => {
                    match state.tag(e.a) {
                        Err(e) => {
                            return Err(e);
                        },
                        Ok(t) => Some(Ax { a: t, v: else_instrs }),
                    }
                },
            };
            let s = simple::FunStmt::If(
                simple::If { condition, then_: Ax { a: then_tag, v: then_instrs }, else_ },
            );
            proof {
                lemma_stmts_view_push(instrs@, s);
            }
            instrs.push(s);
            Ok(())
        },
    }
}

/// What the lowering of one function keeps between its steps.
pub struct SimplifyFunImplState {
    next_single_use_identifier: u32,
    tag_map: TagMap,
}

impl View for SimplifyFunImplState {
    type V = Lowering;

    closed spec fn view(&self) -> Lowering {
        Lowering { next: self.next_single_use_identifier, tags: self.tag_map@ }
    }
}

impl SimplifyFunImplState {
    /// The state before a function is lowered.
    pub fn new() -> (r: SimplifyFunImplState)
        ensures
            r@ == initial_lowering(),
    {
        SimplifyFunImplState { next_single_use_identifier: 1, tag_map: TagMap::new() }
    }

    fn tag(&mut self, loc: SrcLoc) -> (r: Result<Tag, Error>)
        ensures
            match r {
                Ok(t) => tagged(old(self)@, loc) == Ok::<(Lowering, Tag), Error>((final(self)@, t)),
                Err(e) => tagged(old(self)@, loc) == Err::<(Lowering, Tag), Error>(e),
            },
    {
        if !self.tag_map.can_intern() {
            return Err(Error::TooManyTags(loc));
        }
        Ok(self.tag_map.get_tag(loc))
    }

    fn get_single_use_identifier(&mut self, loc: SrcLoc) -> (r: Result<simple::SingleUseIdent, Error>)
        ensures
            match r {
                Ok(t) => fresh_temp(old(self)@, loc) == Ok::<
                    (Lowering, simple::SingleUseIdent),
                    Error,
                >((final(self)@, t)),
                Err(e) => fresh_temp(old(self)@, loc) == Err::<
                    (Lowering, simple::SingleUseIdent),
                    Error,
                >(e),
            },
    {
        if self.next_single_use_identifier == 0xffff_ffff {
            return Err(Error::TooManyTemporaries(loc));
        }
        let id = simple::SingleUseIdent { id: self.next_single_use_identifier };
        self.next_single_use_identifier += 1;
        Ok(id)
    }

    fn compile_expr(&mut self, instrs: &mut Vec<simple::FunStmt>, expr: &plain::Expr) -> (r: Result<
        simple::Ident,
        Error,
    >)
        ensures
            match r {
                Ok(id) => lowered_expr(old(self)@, stmts_view(old(instrs)@), expr@) == Ok::<
                    (Lowering, Instrs, simple::Ident),
                    Error,
                >((final(self)@, stmts_view(final(instrs)@), id)),
                Err(e) => lowered_expr(old(self)@, stmts_view(old(instrs)@), expr@) == Err::<
                    (Lowering, Instrs, simple::Ident),
                    Error,
                >(e),
            },
        decreases expr,
    {
        match expr {
            plain::Expr::LitNum(n) => {
                let tag = match self.tag(n.a) {
                    Err(e) => {
                        return Err(e);
                    },
                    Ok(t) => t,
                };
                let id = match self.get_single_use_identifier(n.a) {
                    Err(e) => {
                        return Err(e);
                    },
                    Ok(t) => t,
                };
                let sid = simple::Ident::SingleUse(Ax { a: tag, v: id });
                let instr = simple::FunStmt::Assignment(
                    Ax {
                        a: tag,
                        v: simple::Assignment {
                            target: sid,
                            value: simple::AssignmentValue::LitNum(Ax { a: tag, v: n.v }),
                        },
                    },
                );
                proof {
                    lemma_stmts_view_push(instrs@, instr);
                }
                instrs.push(instr);
                Ok(sid)
            },
            plain::Expr::LitStr(s) => Err(Error::StringLiteral(s.a)),
            plain::Expr::Ident(id) => self.widen_plain_ident(id),
            plain::Expr::FunCall(fun) => {
                let tag = match self.tag(fun.location()) {
                    Err(e) => {
                        return Err(e);
                    },
                    Ok(t) => t,
                };
                let ghost s1 = self@;
                let ghost acc0 = stmts_view(instrs@);
                let ghost views = plain::exprs_view(fun.args.v@);
                let mut ps: Vec<simple::Ident> = Vec::new();
                let mut k: usize = 0;
                while k < fun.args.v.len()
                    invariant
                        k <= fun.args.v.len(),
                        views == plain::exprs_view(fun.args.v@),
                        lowered_exprs(s1, acc0, views, 0, Seq::empty()) == lowered_exprs(
                            self@,
                            stmts_view(instrs@),
                            views,
                            k as nat,
                            ps@,
                        ),
                        tagged(old(self)@, plain::call_location(fun@)) == Ok::<
                            (Lowering, Tag),
                            Error,
                        >((s1, tag)),
                        acc0 == stmts_view(old(instrs)@),
                        expr@ == plain::ExprView::FunCall(fun@),
                        *expr == plain::Expr::FunCall(*fun),
                    decreases fun.args.v.len() - k,
                {
                    assert(views[k as int] == fun.args.v@[k as int]@);
                    let p = match self.compile_expr(instrs, &fun.args.v[k]) {
                        Err(e) => {
                            return Err(e);
                        },
                        Ok(p) => p,
                    };
                    ps.push(p);
                    k += 1;
                }
                let target = match self.get_single_use_identifier(fun.location()) {
                    Err(e) => {
                        return Err(e);
                    },
                    Ok(t) => t,
                };
                let starget = simple::Ident::SingleUse(Ax { a: tag, v: target });
                let name_tag = match self.tag(fun.name.a) {
                    Err(e) => {
                        return Err(e);
                    },
                    Ok(t) => t,
                };
                let instr = simple::FunStmt::Assignment(
                    Ax {
                        a: tag,
                        v: simple::Assignment {
                            target: starget,
                            value: simple::AssignmentValue::Call(
                                Ax {
                                    a: tag,
                                    v: simple::Call {
                                        fun_name: Ax { a: name_tag, v: fun.name.v },
                                        arguments: Ax { a: tag, v: ps },
                                    },
                                },
                            ),
                        },
                    },
                );
                proof {
                    lemma_stmts_view_push(instrs@, instr);
                }
                instrs.push(instr);
                Ok(starget)
            },
        }
    }

    fn widen_local(&mut self, l: WithLoc<LocalIdent>) -> (r: Result<simple::Ident, Error>)
        ensures
            match r {
                Ok(i) => widened_local(old(self)@, l) == Ok::<(Lowering, simple::Ident), Error>(
                    (final(self)@, i),
                ),
                Err(e) => widened_local(old(self)@, l) == Err::<(Lowering, simple::Ident), Error>(e),
            },
    {
        match self.tag(l.a) {
            Err(e) => Err(e),
            Ok(tag) => Ok(simple::Ident::Local(Ax { a: tag, v: l.v })),
        }
    }

    fn widen_plain_ident(&mut self, id: &plain::Ident) -> (r: Result<simple::Ident, Error>)
        ensures
            match r {
                Ok(i) => widened(old(self)@, *id) == Ok::<(Lowering, simple::Ident), Error>(
                    (final(self)@, i),
                ),
                Err(e) => widened(old(self)@, *id) == Err::<(Lowering, simple::Ident), Error>(e),
            },
    {
        match id {
            plain::Ident::Local(l) => self.widen_local(*l),
            plain::Ident::Global(g) => Err(Error::GlobalRead(*g)),
        }
    }
}

} // verus!
