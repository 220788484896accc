use vstd::prelude::*;
use crate::parser::syntax;
use crate::parser::syntax::lident_view;
use crate::parser::syntax::LitNum;
use crate::renamer::plain::{LocalIdent, UnresolvedIdent};
use crate::util::ax::Ax;
use crate::util::bimap::{Bimap, Pairs};
use crate::util::loc::{Located, SrcLoc, Tag, TagMap, Tagged, WithLoc, WithTag};

verus! {

/// A temporary that holds one intermediate value and is read at most once.
#[derive(Clone, Copy, Debug, PartialEq, Eq, Hash, Structural)]
pub struct SingleUseIdent {
    pub id: u32,
}

/// What a statement reads or writes: a local of the function or a temporary.
#[derive(Clone, Copy, Debug, PartialEq, Eq, Hash)]
pub enum Ident {
    Local(WithTag<LocalIdent>),
    SingleUse(WithTag<SingleUseIdent>),
}

impl Tagged for Ident {
    open spec fn spec_tag(&self) -> Tag {
        match self {
            Ident::Local(l) => l.a,
            Ident::SingleUse(u) => u.a,
        }
    }

    fn tag(&self) -> (tag: Tag) {
        match self {
            Ident::Local(l) => l.a,
            Ident::SingleUse(u) => u.a,
        }
    }
}

/// A call: the callee, still a reference by number, and the operands in order.
#[derive(Clone, Debug, PartialEq)]
pub struct Call {
    pub fun_name: WithTag<UnresolvedIdent>,
    pub arguments: WithTag<Vec<Ident>>,
}

/// The view of [`Call`]: sequences stand for vectors and strings.
pub struct CallView {
    pub fun_name: WithTag<UnresolvedIdent>,
    pub arguments: WithTag<Seq<Ident>>,
}

impl View for Call {
    type V = CallView;

    open spec fn view(&self) -> CallView {
        CallView {
            fun_name: self.fun_name,
            arguments: Ax { a: self.arguments.a, v: self.arguments.v@ },
        }
    }
}

/// The right-hand side of an assignment. No operand is an expression.
#[derive(Clone, Debug, PartialEq)]
pub enum AssignmentValue {
    Call(WithTag<Call>),
    Ident(Ident),
    LitNum(WithTag<LitNum>),
}

/// The view of [`AssignmentValue`]: sequences stand for vectors and strings.
pub enum AssignmentValueView {
    Call(WithTag<CallView>),
    Ident(Ident),
    LitNum(WithTag<LitNum>),
}

impl View for AssignmentValue {
    type V = AssignmentValueView;

    open spec fn view(&self) -> AssignmentValueView {
        match self {
            AssignmentValue::Call(c) => AssignmentValueView::Call(Ax { a: c.a, v: c.v@ }),
            AssignmentValue::Ident(i) => AssignmentValueView::Ident(*i),
            AssignmentValue::LitNum(n) => AssignmentValueView::LitNum(*n),
        }
    }
}

impl Tagged for AssignmentValue {
    open spec fn spec_tag(&self) -> Tag {
        match self {
            AssignmentValue::Call(c) => c.a,
            AssignmentValue::Ident(i) => i.spec_tag(),
            AssignmentValue::LitNum(n) => n.a,
        }
    }

    fn tag(&self) -> (tag: Tag) {
        match self {
            AssignmentValue::Call(c) => c.a,
            AssignmentValue::Ident(i) => i.tag(),
            AssignmentValue::LitNum(n) => n.a,
        }
    }
}

#[derive(Clone, Debug, PartialEq)]
pub struct Assignment {
    pub target: Ident,
    pub value: AssignmentValue,
}

/// The view of [`Assignment`]: sequences stand for vectors and strings.
pub struct AssignmentView {
    pub target: Ident,
    pub value: AssignmentValueView,
}

impl View for Assignment {
    type V = AssignmentView;

    open spec fn view(&self) -> AssignmentView {
        AssignmentView { target: self.target, value: self.value@ }
    }
}

#[derive(Clone, Debug, PartialEq, Eq)]
pub struct Label {
    pub id: u32,
}

/// A statement of the flat form.
#[derive(Debug, PartialEq)]
pub enum FunStmt {
    Loop(WithTag<Loop>),
    Assignment(WithTag<Assignment>),
    Break(),
    Return(Ident),
    If(If),
    Nop,
}

/// Runs `then_` if `condition` holds a value other than zero, else `else_`.
#[derive(Debug, PartialEq)]
pub struct If {
    pub condition: Ident,
    pub then_: WithTag<Vec<FunStmt>>,
    pub else_: Option<WithTag<Vec<FunStmt>>>,
}

/// Runs `body` again and again; only a `Break` directly in it leaves.
#[derive(Debug, PartialEq)]
pub struct Loop {
    pub body: WithTag<Vec<FunStmt>>,
}

/// The view of [`FunStmt`]: sequences stand for vectors and strings.
pub enum FunStmtView {
    Loop(WithTag<LoopView>),
    Assignment(WithTag<AssignmentView>),
    Break,
    Return(Ident),
    If(IfView),
    Nop,
}

/// The view of [`If`]: sequences stand for vectors and strings.
pub struct IfView {
    pub condition: Ident,
    pub then_: WithTag<Seq<FunStmtView>>,
    pub else_: Option<WithTag<Seq<FunStmtView>>>,
}

/// The view of [`Loop`]: sequences stand for vectors and strings.
pub struct LoopView {
    pub body: WithTag<Seq<FunStmtView>>,
}

/// The view of a statement.
pub open spec fn stmt_view(s: FunStmt) -> FunStmtView
    decreases s,
{
    match s {
        FunStmt::Loop(l) => FunStmtView::Loop(
            Ax { a: l.a, v: LoopView { body: Ax { a: l.v.body.a, v: stmts_view(l.v.body.v@) } } },
        ),
        FunStmt::Assignment(a) => FunStmtView::Assignment(Ax { a: a.a, v: a.v@ }),
        FunStmt::Break() => FunStmtView::Break,
        FunStmt::Return(i) => FunStmtView::Return(i),
        FunStmt::If(i) => {
            let then_ = Ax { a: i.then_.a, v: stmts_view(i.then_.v@) };
            let else_ = match i.else_ {
                Some(e) => Some(Ax { a: e.a, v: stmts_view(e.v@) }),
                None => None,
            };
            FunStmtView::If(IfView { condition: i.condition, then_, else_ })
        },
        FunStmt::Nop => FunStmtView::Nop,
    }
}

/// The views of statements, in order.
pub open spec fn stmts_view(s: Seq<FunStmt>) -> Seq<FunStmtView>
    decreases s,
{
    Seq::new(
        s.len(),
        |i: int|
            if 0 <= i < s.len() {
                stmt_view(s[i])
            } else {
                arbitrary()
            },
    )
}

impl View for FunStmt {
    type V = FunStmtView;

    open spec fn view(&self) -> FunStmtView {
        stmt_view(*self)
    }
}

/// Pushing a statement pushes its view.
pub proof fn lemma_stmts_view_push(s: Seq<FunStmt>, x: FunStmt)
    ensures
        stmts_view(s.push(x)) == stmts_view(s).push(x@),
{
    assert(stmts_view(s.push(x)) =~= stmts_view(s).push(x@));
}

/// The parameters and the body of a function in the flat form.
#[derive(Debug, PartialEq)]
pub struct FunImpl {
    pub parameters: WithTag<Vec<WithTag<LocalIdent>>>,
    pub body: WithTag<Vec<FunStmt>>,
}

/// The view of [`FunImpl`]: sequences stand for vectors and strings.
pub struct FunImplView {
    pub parameters: WithTag<Seq<WithTag<LocalIdent>>>,
    pub body: WithTag<Seq<FunStmtView>>,
}

impl View for FunImpl {
    type V = FunImplView;

    open spec fn view(&self) -> FunImplView {
        FunImplView {
            parameters: Ax { a: self.parameters.a, v: self.parameters.v@ },
            body: Ax { a: self.body.a, v: stmts_view(self.body.v@) },
        }
    }
}

/// A function in the flat form. `tag_map` gives the source location behind
/// each tag of `implementation`; `refs` names the callees.
#[derive(Debug, PartialEq)]
pub struct FunDecl {
    pub name: syntax::LIdent,
    pub implementation: FunImpl,
    pub tag_map: TagMap,
    pub refs: Bimap,
}

/// The view of [`FunDecl`]: sequences stand for vectors and strings.
pub struct FunDeclView {
    pub name: WithLoc<Seq<char>>,
    pub implementation: FunImplView,
    pub tag_map: Seq<SrcLoc>,
    pub refs: Pairs,
}

impl View for FunDecl {
    type V = FunDeclView;

    open spec fn view(&self) -> FunDeclView {
        FunDeclView {
            name: lident_view(self.name),
            implementation: self.implementation@,
            tag_map: self.tag_map@,
            refs: self.refs@,
        }
    }
}

#[derive(Debug, PartialEq)]
pub enum TopLevelStmt {
    FunDecl(WithLoc<FunDecl>),
}

/// The view of [`TopLevelStmt`]: sequences stand for vectors and strings.
pub enum TopLevelStmtView {
    FunDecl(WithLoc<FunDeclView>),
}

impl View for TopLevelStmt {
    type V = TopLevelStmtView;

    open spec fn view(&self) -> TopLevelStmtView {
        match self {
            TopLevelStmt::FunDecl(f) => TopLevelStmtView::FunDecl(Ax { a: f.a, v: f.v@ }),
        }
    }
}

impl Located for TopLevelStmt {
    open spec fn spec_location(&self) -> SrcLoc {
        match self {
            TopLevelStmt::FunDecl(f) => f.a,
        }
    }

    fn location(&self) -> (loc: SrcLoc) {
        match self {
            TopLevelStmt::FunDecl(f) => f.a,
        }
    }
}

/// A program in the flat form.
#[derive(Debug, PartialEq)]
pub struct Module {
    pub statements: Vec<TopLevelStmt>,
}

/// The view of [`Module`]: sequences stand for vectors and strings.
pub struct ModuleView {
    pub statements: Seq<TopLevelStmtView>,
}

/// The views of top-level statements, in order.
pub open spec fn top_level_views(s: Seq<TopLevelStmt>) -> Seq<TopLevelStmtView> {
    Seq::new(s.len(), |i: int| s[i]@)
}

impl View for Module {
    type V = ModuleView;

    open spec fn view(&self) -> ModuleView {
        ModuleView { statements: top_level_views(self.statements@) }
    }
}

} // verus!
