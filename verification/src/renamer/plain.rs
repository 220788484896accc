use vstd::prelude::*;
use crate::parser::syntax;
use crate::parser::syntax::lident_view;
use crate::parser::syntax::{LitNum, LitStr};
use crate::util::ax::Ax;
use crate::util::bimap::{Bimap, Pairs};
use crate::util::loc::{enclosing_loc, Located, SrcLoc, WithLoc};

verus! {

/// A name bound inside one function; its number is unique within that function.
#[derive(Debug, Copy, Clone, PartialEq, Eq, Hash, Structural)]
pub struct LocalIdent {
    pub id: u32,
}

/// A name left open until link time; each distinct name of a function has one number.
#[derive(Debug, Copy, Clone, PartialEq, Eq, Hash, Structural)]
pub struct UnresolvedIdent {
    pub id: u32,
}

/// An occurrence of a name, resolved: bound in the function, or left to the linker.
#[derive(Debug, Copy, Clone, PartialEq, Eq)]
pub enum Ident {
    Local(WithLoc<LocalIdent>),
    Global(WithLoc<UnresolvedIdent>),
}

impl Located for Ident {
    open spec fn spec_location(&self) -> SrcLoc {
        match self {
            Ident::Local(l) => l.a,
            Ident::Global(g) => g.a,
        }
    }

    fn location(&self) -> (loc: SrcLoc) {
        match self {
            Ident::Local(l) => l.a,
            Ident::Global(g) => g.a,
        }
    }
}

// Expressions

#[derive(Debug, PartialEq)]
pub enum Expr {
    LitNum(WithLoc<LitNum>),
    LitStr(WithLoc<LitStr>),
    Ident(Ident),
    FunCall(FunCall),
}

#[derive(Debug, PartialEq)]
pub struct FunCall {
    pub name: WithLoc<UnresolvedIdent>,
    pub args: WithLoc<Vec<Expr>>,
}

/// The view of [`Expr`]: sequences stand for vectors and strings.
pub enum ExprView {
    LitNum(WithLoc<LitNum>),
    LitStr(WithLoc<Seq<char>>),
    Ident(Ident),
    FunCall(FunCallView),
}

/// The view of [`FunCall`]: sequences stand for vectors and strings.
pub struct FunCallView {
    pub name: WithLoc<UnresolvedIdent>,
    pub args: WithLoc<Seq<ExprView>>,
}

/// The view of an expression.
pub open spec fn expr_view(e: Expr) -> ExprView
    decreases e,
{
    match e {
        Expr::LitNum(n) => ExprView::LitNum(n),
        Expr::LitStr(s) => ExprView::LitStr(Ax { a: s.a, v: s.v@ }),
        Expr::Ident(i) => ExprView::Ident(i),
        Expr::FunCall(c) => ExprView::FunCall(
            FunCallView { name: c.name, args: Ax { a: c.args.a, v: exprs_view(c.args.v@) } },
        ),
    }
}

/// The views of expressions, in order.
pub open spec fn exprs_view(s: Seq<Expr>) -> Seq<ExprView>
    decreases s,
{
    Seq::new(
        s.len(),
        |i: int|
            if 0 <= i < s.len() {
                expr_view(s[i])
            } else {
                arbitrary()
            },
    )
}

impl View for Expr {
    type V = ExprView;

    open spec fn view(&self) -> ExprView {
        expr_view(*self)
    }
}

impl View for FunCall {
    type V = FunCallView;

    open spec fn view(&self) -> FunCallView {
        FunCallView { name: self.name, args: Ax { a: self.args.a, v: exprs_view(self.args.v@) } }
    }
}

/// Where a call stands: the span around its name and its arguments.
pub open spec fn call_location(c: FunCallView) -> SrcLoc {
    enclosing_loc(enclosing_loc(SrcLoc::Unknown, c.name.a), c.args.a)
}

/// Where an expression stands.
pub open spec fn expr_location(e: ExprView) -> SrcLoc {
    match e {
        ExprView::LitNum(n) => n.a,
        ExprView::LitStr(s) => s.a,
        ExprView::Ident(i) => i.spec_location(),
        ExprView::FunCall(c) => call_location(c),
    }
}

impl Located for FunCall {
    open spec fn spec_location(&self) -> SrcLoc {
        call_location(self@)
    }

    fn location(&self) -> (loc: SrcLoc) {
        let acc = SrcLoc::enclosing(&SrcLoc::Unknown, &self.name.a);
        SrcLoc::enclosing(&acc, &self.args.a)
    }
}

impl Located for Expr {
    open spec fn spec_location(&self) -> SrcLoc {
        expr_location(self@)
    }

    fn location(&self) -> (loc: SrcLoc) {
        match self {
            Expr::LitNum(n) => n.a,
            Expr::LitStr(s) => s.a,
            Expr::Ident(i) => i.location(),
            Expr::FunCall(c) => c.location(),
        }
    }
}

// Statements

#[derive(Debug, PartialEq)]
pub struct Return(pub Expr);

#[derive(Debug, PartialEq)]
pub enum FunStmt {
    Return(WithLoc<Return>),
    Inv(WithLoc<Expr>),
    LetDecl(WithLoc<LetDecl>),
    While(WithLoc<While>),
    Assignment(WithLoc<Assignment>),
    If(WithLoc<If>),
}

#[derive(Debug, PartialEq)]
pub struct LetDecl {
    pub name: WithLoc<LocalIdent>,
    pub value: Expr,
}

#[derive(Debug, PartialEq)]
pub struct While {
    pub condition: Expr,
    pub body: WithLoc<Vec<FunStmt>>,
}

#[derive(Debug, PartialEq)]
pub struct Assignment {
    pub id: WithLoc<LocalIdent>,
    pub value: Expr,
}

#[derive(Debug, PartialEq)]
pub struct If {
    pub condition: Expr,
    pub then_: WithLoc<Vec<FunStmt>>,
    pub else_: Option<WithLoc<Vec<FunStmt>>>,
}

/// The view of [`FunStmt`]: sequences stand for vectors and strings.
pub enum FunStmtView {
    Return(WithLoc<ExprView>),
    Inv(WithLoc<ExprView>),
    LetDecl(WithLoc<LetDeclView>),
    While(WithLoc<WhileView>),
    Assignment(WithLoc<AssignmentView>),
    If(WithLoc<IfView>),
}

/// The view of [`LetDecl`]: sequences stand for vectors and strings.
pub struct LetDeclView {
    pub name: WithLoc<LocalIdent>,
    pub value: ExprView,
}

/// The view of [`While`]: sequences stand for vectors and strings.
pub struct WhileView {
    pub condition: ExprView,
    pub body: WithLoc<Seq<FunStmtView>>,
}

/// The view of [`Assignment`]: sequences stand for vectors and strings.
pub struct AssignmentView {
    pub id: WithLoc<LocalIdent>,
    pub value: ExprView,
}

/// The view of [`If`]: sequences stand for vectors and strings.
pub struct IfView {
    pub condition: ExprView,
    pub then_: WithLoc<Seq<FunStmtView>>,
    pub else_: Option<WithLoc<Seq<FunStmtView>>>,
}

/// The view of a statement.
pub open spec fn stmt_view(s: FunStmt) -> FunStmtView
    decreases s,
{
    match s {
        FunStmt::Return(r) => FunStmtView::Return(Ax { a: r.a, v: r.v.0@ }),
        FunStmt::Inv(i) => FunStmtView::Inv(Ax { a: i.a, v: i.v@ }),
        FunStmt::LetDecl(d) => FunStmtView::LetDecl(
            Ax { a: d.a, v: LetDeclView { name: d.v.name, value: d.v.value@ } },
        ),
        FunStmt::While(w) => FunStmtView::While(
            Ax {
                a: w.a,
                v: WhileView {
                    condition: w.v.condition@,
                    body: Ax { a: w.v.body.a, v: stmts_view(w.v.body.v@) },
                },
            },
        ),
        FunStmt::Assignment(d) => FunStmtView::Assignment(
            Ax { a: d.a, v: AssignmentView { id: d.v.id, value: d.v.value@ } },
        ),
        FunStmt::If(i) => {
            let then_ = Ax { a: i.v.then_.a, v: stmts_view(i.v.then_.v@) };
            let else_ = match i.v.else_ {
                Some(e) => Some(Ax { a: e.a, v: stmts_view(e.v@) }),
                None => None,
            };
            FunStmtView::If(Ax { a: i.a, v: IfView { condition: i.v.condition@, then_, else_ } })
        },
    }
}

/// The views of statements, in order.
pub open spec fn stmts_view(s: Seq<FunStmt>) -> Seq<FunStmtView>
    decreases s,
{
    Seq::new(
        s.len(),
        |i: int|
            if 0 <= i < s.len() {
                stmt_view(s[i])
            } else {
                arbitrary()
            },
    )
}

impl View for FunStmt {
    type V = FunStmtView;

    open spec fn view(&self) -> FunStmtView {
        stmt_view(*self)
    }
}

// Declarations

/// The parameters and the body of a function, with every name resolved.
#[derive(Debug, PartialEq)]
pub struct FunImpl {
    pub params: WithLoc<Vec<WithLoc<LocalIdent>>>,
    pub preds: WithLoc<Vec<Expr>>,
    pub body: WithLoc<Vec<FunStmt>>,
}

/// The view of [`FunImpl`]: sequences stand for vectors and strings.
pub struct FunImplView {
    pub params: WithLoc<Seq<WithLoc<LocalIdent>>>,
    pub preds: WithLoc<Seq<ExprView>>,
    pub body: WithLoc<Seq<FunStmtView>>,
}

impl View for FunImpl {
    type V = FunImplView;

    open spec fn view(&self) -> FunImplView {
        FunImplView {
            params: Ax { a: self.params.a, v: self.params.v@ },
            preds: Ax { a: self.preds.a, v: exprs_view(self.preds.v@) },
            body: Ax { a: self.body.a, v: stmts_view(self.body.v@) },
        }
    }
}

/// A function after renaming. `refs` gives, for each unresolved number that the
/// body uses, the name that it stands for.
#[derive(Debug, PartialEq)]
pub struct FunDef {
    pub name: WithLoc<syntax::Ident>,
    pub implementation: FunImpl,
    pub refs: Bimap,
}

/// The view of [`FunDef`]: sequences stand for vectors and strings.
pub struct FunDefView {
    pub name: WithLoc<Seq<char>>,
    pub implementation: FunImplView,
    pub refs: Pairs,
}

impl View for FunDef {
    type V = FunDefView;

    open spec fn view(&self) -> FunDefView {
        FunDefView {
            name: lident_view(self.name),
            implementation: self.implementation@,
            refs: self.refs@,
        }
    }
}

#[derive(Debug, PartialEq)]
pub enum TopLevelStmt {
    FunDef(WithLoc<FunDef>),
}

/// The view of [`TopLevelStmt`]: sequences stand for vectors and strings.
pub enum TopLevelStmtView {
    FunDef(WithLoc<FunDefView>),
}

impl View for TopLevelStmt {
    type V = TopLevelStmtView;

    open spec fn view(&self) -> TopLevelStmtView {
        match self {
            TopLevelStmt::FunDef(f) => TopLevelStmtView::FunDef(Ax { a: f.a, v: f.v@ }),
        }
    }
}

/// A program after renaming.
#[derive(Debug, PartialEq)]
pub struct Module {
    pub statements: Vec<TopLevelStmt>,
}

/// The view of [`Module`]: sequences stand for vectors and strings.
pub struct ModuleView {
    pub statements: Seq<TopLevelStmtView>,
}

impl View for Module {
    type V = ModuleView;

    open spec fn view(&self) -> ModuleView {
        ModuleView {
            statements: Seq::new(self.statements@.len(), |i: int| self.statements@[i]@),
        }
    }
}

} // verus!
