use vstd::prelude::*;
use crate::util::ax::Ax;
use crate::util::loc::WithLoc;

verus! {

// Identifier

/// A name as it stands in the source.
#[derive(Debug, Eq, PartialEq, Hash, Clone)]
pub struct Ident(pub String);

/// A name with the place where it stands.
pub type LIdent = WithLoc<Ident>;

impl View for Ident {
    type V = Seq<char>;

    open spec fn view(&self) -> Seq<char> {
        self.0@
    }
}

impl Ident {
    /// A copy with the same characters.
    pub fn duplicate(&self) -> (r: Ident)
        ensures
            r@ == self@,
    {
        Ident(self.0.clone())
    }

    /// True when both names have the same characters.
    pub fn same(&self, other: &Ident) -> (b: bool)
        ensures
            b == (self@ == other@),
    {
        self.0 == other.0
    }
}

/// The name at the same place, with the view of the name.
pub open spec fn lident_view(i: LIdent) -> WithLoc<Seq<char>> {
    Ax { a: i.a, v: i.v@ }
}

/// A copy of a located name.
pub fn duplicate_lident(i: &LIdent) -> (r: LIdent)
    ensures
        lident_view(r) == lident_view(*i),
{
    Ax { a: i.a, v: i.v.duplicate() }
}

// Literals

/// A number literal.
#[derive(Debug, Clone, PartialEq, Eq, Copy)]
pub struct LitNum(pub i32);

/// A string literal.
#[derive(Debug, Clone, PartialEq, Eq)]
pub struct LitStr(pub String);

impl View for LitStr {
    type V = Seq<char>;

    open spec fn view(&self) -> Seq<char> {
        self.0@
    }
}

// Expressions

#[derive(Debug, PartialEq)]
pub enum Expr {
    LitNum(WithLoc<LitNum>),
    LitStr(WithLoc<LitStr>),
    Ident(WithLoc<Ident>),
    FunCall(FunCall),
    Infix(Infix),
}

/// A call: the callee's name and the arguments in order.
#[derive(Debug, PartialEq)]
pub struct FunCall {
    pub name: WithLoc<Ident>,
    pub args: WithLoc<Vec<Expr>>,
}

/// An operator written between its operands: `a + b` has the operands `a` and `b`.
#[derive(Debug, PartialEq)]
pub struct Infix {
    pub op: WithLoc<Ident>,
    pub operands: WithLoc<Vec<Expr>>,
}

/// The view of [`Expr`]: sequences stand for vectors and strings.
pub enum ExprView {
    LitNum(WithLoc<LitNum>),
    LitStr(WithLoc<Seq<char>>),
    Ident(WithLoc<Seq<char>>),
    FunCall(FunCallView),
    Infix(InfixView),
}

/// The view of [`FunCall`]: sequences stand for vectors and strings.
pub struct FunCallView {
    pub name: WithLoc<Seq<char>>,
    pub args: WithLoc<Seq<ExprView>>,
}

/// The view of [`Infix`]: sequences stand for vectors and strings.
pub struct InfixView {
    pub op: WithLoc<Seq<char>>,
    pub operands: WithLoc<Seq<ExprView>>,
}

/// The view of an expression.
pub open spec fn expr_view(e: Expr) -> ExprView
    decreases e,
{
    match e {
        Expr::LitNum(n) => ExprView::LitNum(n),
        Expr::LitStr(s) => ExprView::LitStr(Ax { a: s.a, v: s.v@ }),
        Expr::Ident(i) => ExprView::Ident(lident_view(i)),
        Expr::FunCall(c) => ExprView::FunCall(
            FunCallView {
                name: lident_view(c.name),
                args: Ax { a: c.args.a, v: exprs_view(c.args.v@) },
            },
        ),
        Expr::Infix(x) => ExprView::Infix(
            InfixView {
                op: lident_view(x.op),
                operands: Ax { a: x.operands.a, v: exprs_view(x.operands.v@) },
            },
        ),
    }
}

/// The views of expressions, in order.
pub open spec fn exprs_view(s: Seq<Expr>) -> Seq<ExprView>
    decreases s,
{
    Seq::new(
        s.len(),
        |i: int|
            if 0 <= i < s.len() {
                expr_view(s[i])
            } else {
                arbitrary()
            },
    )
}

impl View for Expr {
    type V = ExprView;

    open spec fn view(&self) -> ExprView {
        expr_view(*self)
    }
}

impl View for FunCall {
    type V = FunCallView;

    open spec fn view(&self) -> FunCallView {
        FunCallView {
            name: lident_view(self.name),
            args: Ax { a: self.args.a, v: exprs_view(self.args.v@) },
        }
    }
}

impl View for Infix {
    type V = InfixView;

    open spec fn view(&self) -> InfixView {
        InfixView {
            op: lident_view(self.op),
            operands: Ax { a: self.operands.a, v: exprs_view(self.operands.v@) },
        }
    }
}

// Statements

#[derive(Debug, PartialEq)]
pub enum FunStmt {
    Return(WithLoc<Return>),
    Inv(WithLoc<Inv>),
    LetDecl(WithLoc<LetDecl>),
    While(WithLoc<While>),
    Assignment(WithLoc<Assignment>),
    If(WithLoc<If>),
}

#[derive(Debug, PartialEq)]
pub struct Return(pub Expr);

#[derive(Debug, PartialEq)]
pub struct Inv {
    pub value: WithLoc<Expr>,
}

#[derive(Debug, PartialEq)]
pub struct LetDecl {
    pub name: WithLoc<Ident>,
    pub value: Expr,
}

#[derive(Debug, PartialEq)]
pub struct While {
    pub condition: Expr,
    pub body: WithLoc<Vec<FunStmt>>,
}

#[derive(Debug, PartialEq)]
pub struct Assignment {
    pub name: WithLoc<Ident>,
    pub value: Expr,
}

#[derive(Debug, PartialEq)]
pub struct If {
    pub condition: Expr,
    pub then_: WithLoc<Vec<FunStmt>>,
    pub else_: Option<WithLoc<Vec<FunStmt>>>,
}

/// The view of [`FunStmt`]: sequences stand for vectors and strings.
pub enum FunStmtView {
    Return(WithLoc<ExprView>),
    Inv(WithLoc<WithLoc<ExprView>>),
    LetDecl(WithLoc<LetDeclView>),
    While(WithLoc<WhileView>),
    Assignment(WithLoc<AssignmentView>),
    If(WithLoc<IfView>),
}

/// The view of [`LetDecl`]: sequences stand for vectors and strings.
pub struct LetDeclView {
    pub name: WithLoc<Seq<char>>,
    pub value: ExprView,
}

/// The view of [`While`]: sequences stand for vectors and strings.
pub struct WhileView {
    pub condition: ExprView,
    pub body: WithLoc<Seq<FunStmtView>>,
}

/// The view of [`Assignment`]: sequences stand for vectors and strings.
pub struct AssignmentView {
    pub name: WithLoc<Seq<char>>,
    pub value: ExprView,
}

/// The view of [`If`]: sequences stand for vectors and strings.
pub struct IfView {
    pub condition: ExprView,
    pub then_: WithLoc<Seq<FunStmtView>>,
    pub else_: Option<WithLoc<Seq<FunStmtView>>>,
}

/// The view of a statement.
pub open spec fn stmt_view(s: FunStmt) -> FunStmtView
    decreases s,
{
    match s {
        FunStmt::Return(r) => FunStmtView::Return(Ax { a: r.a, v: r.v.0@ }),
        FunStmt::Inv(i) => FunStmtView::Inv(Ax { a: i.a, v: Ax { a: i.v.value.a, v: i.v.value.v@ } }),
        FunStmt::LetDecl(d) => FunStmtView::LetDecl(
            Ax { a: d.a, v: LetDeclView { name: lident_view(d.v.name), value: d.v.value@ } },
        ),
        FunStmt::While(w) => FunStmtView::While(
            Ax {
                a: w.a,
                v: WhileView {
                    condition: w.v.condition@,
                    body: Ax { a: w.v.body.a, v: stmts_view(w.v.body.v@) },
                },
            },
        ),
        FunStmt::Assignment(d) => FunStmtView::Assignment(
            Ax { a: d.a, v: AssignmentView { name: lident_view(d.v.name), value: d.v.value@ } },
        ),
        FunStmt::If(i) => {
            let then_ = Ax { a: i.v.then_.a, v: stmts_view(i.v.then_.v@) };
            let else_ = match i.v.else_ {
                Some(e) => Some(Ax { a: e.a, v: stmts_view(e.v@) }),
                None => None,
            };
            FunStmtView::If(Ax { a: i.a, v: IfView { condition: i.v.condition@, then_, else_ } })
        },
    }
}

/// The views of statements, in order.
pub open spec fn stmts_view(s: Seq<FunStmt>) -> Seq<FunStmtView>
    decreases s,
{
    Seq::new(
        s.len(),
        |i: int|
            if 0 <= i < s.len() {
                stmt_view(s[i])
            } else {
                arbitrary()
            },
    )
}

impl View for FunStmt {
    type V = FunStmtView;

    open spec fn view(&self) -> FunStmtView {
        stmt_view(*self)
    }
}

// Declarations

/// A function as written: its name, parameters, predicates and body.
#[derive(Debug, PartialEq)]
pub struct FunDef {
    pub name: WithLoc<Ident>,
    pub params: WithLoc<Vec<WithLoc<Ident>>>,
    pub preds: WithLoc<Vec<Expr>>,
    pub body: WithLoc<Vec<FunStmt>>,
}

/// The view of [`FunDef`]: sequences stand for vectors and strings.
pub struct FunDefView {
    pub name: WithLoc<Seq<char>>,
    pub params: WithLoc<Seq<WithLoc<Seq<char>>>>,
    pub preds: WithLoc<Seq<ExprView>>,
    pub body: WithLoc<Seq<FunStmtView>>,
}

/// The views of located names, in order.
pub open spec fn lidents_view(s: Seq<LIdent>) -> Seq<WithLoc<Seq<char>>> {
    Seq::new(s.len(), |i: int| lident_view(s[i]))
}

impl View for FunDef {
    type V = FunDefView;

    open spec fn view(&self) -> FunDefView {
        FunDefView {
            name: lident_view(self.name),
            params: Ax { a: self.params.a, v: lidents_view(self.params.v@) },
            preds: Ax { a: self.preds.a, v: exprs_view(self.preds.v@) },
            body: Ax { a: self.body.a, v: stmts_view(self.body.v@) },
        }
    }
}

#[derive(Debug, PartialEq)]
pub enum TopLevelStmt {
    FunDef(WithLoc<FunDef>),
}

/// The view of [`TopLevelStmt`]: sequences stand for vectors and strings.
pub enum TopLevelStmtView {
    FunDef(WithLoc<FunDefView>),
}

impl View for TopLevelStmt {
    type V = TopLevelStmtView;

    open spec fn view(&self) -> TopLevelStmtView {
        match self {
            TopLevelStmt::FunDef(f) => TopLevelStmtView::FunDef(Ax { a: f.a, v: f.v@ }),
        }
    }
}

/// A program as written: its top-level statements in order.
#[derive(Debug, PartialEq)]
pub struct Module {
    pub statements: WithLoc<Vec<TopLevelStmt>>,
}

/// The view of [`Module`]: sequences stand for vectors and strings.
pub struct ModuleView {
    pub statements: WithLoc<Seq<TopLevelStmtView>>,
}

impl View for Module {
    type V = ModuleView;

    open spec fn view(&self) -> ModuleView {
        ModuleView {
            statements: Ax {
                a: self.statements.a,
                v: Seq::new(self.statements.v@.len(), |i: int| self.statements.v@[i]@),
            },
        }
    }
}

} // verus!
