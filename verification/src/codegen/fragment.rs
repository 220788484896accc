use vstd::prelude::*;
use crate::codegen::types::{Instruction, ValType};
use crate::parser::syntax;
use crate::parser::syntax::{duplicate_lident, lident_view};
use crate::renamer::plain::UnresolvedIdent;
use crate::util::ax::Ax;
use crate::util::bimap::{Bimap, Pairs};
use crate::util::loc::WithLoc;

verus! {

/// A call whose callee is still a reference by number: the linker looks the
/// number up in the function's references table.
#[derive(Debug, Clone, Copy, PartialEq, Eq, Structural)]
pub struct Call {
    pub fun: UnresolvedIdent,
    pub arity: usize,
}

/// An instruction of a fragment: a call left open, or an instruction of the target.
#[derive(Debug, Clone, Copy, PartialEq, Eq, Structural)]
pub enum Instr {
    Call(Call),
    Raw(Instruction),
}

/// The code of one function: the types of its parameters, the number of
/// slots it uses (parameters, locals and temporaries together), and its
/// instructions.
#[derive(Debug, Clone, PartialEq, Eq)]
pub struct FunImpl {
    pub params: Vec<ValType>,
    pub slots: u32,
    pub body: Vec<Instr>,
}

/// The view of [`FunImpl`]: sequences stand for vectors and strings.
pub struct FunImplView {
    pub params: Seq<ValType>,
    pub slots: u32,
    pub body: Seq<Instr>,
}

impl View for FunImpl {
    type V = FunImplView;

    open spec fn view(&self) -> FunImplView {
        FunImplView { params: self.params@, slots: self.slots, body: self.body@ }
    }
}

/// One function after code generation, not yet linked.
#[derive(Debug, PartialEq)]
pub struct FunDecl {
    pub name: WithLoc<syntax::Ident>,
    pub export: bool,
    pub implementation: FunImpl,
    pub refs: Bimap,
}

/// The view of [`FunDecl`]: sequences stand for vectors and strings.
pub struct FunDeclView {
    pub name: WithLoc<Seq<char>>,
    pub export: bool,
    pub implementation: FunImplView,
    pub refs: Pairs,
}

impl View for FunDecl {
    type V = FunDeclView;

    open spec fn view(&self) -> FunDeclView {
        FunDeclView {
            name: lident_view(self.name),
            export: self.export,
            implementation: self.implementation@,
            refs: self.refs@,
        }
    }
}

/// A copy of a vector of plain values.
pub fn duplicate_vec<T: Copy>(v: &Vec<T>) -> (r: Vec<T>)
    ensures
        r@ == v@,
{
    let mut out: Vec<T> = Vec::new();
    let mut i: usize = 0;
    while i < v.len()
        invariant
            i <= v.len(),
            out@ == v@.take(i as int),
        decreases v.len() - i,
    {
        out.push(v[i]);
        assert(out@ =~= v@.take(i + 1));
        i += 1;
    }
    assert(v@.take(v@.len() as int) =~= v@);
    out
}

impl FunDecl {
    /// A copy of the function.
    pub fn duplicate(&self) -> (r: FunDecl)
        ensures
            r@ == self@,
    {
        FunDecl {
            name: duplicate_lident(&self.name),
            export: self.export,
            implementation: FunImpl {
                params: duplicate_vec(&self.implementation.params),
                slots: self.implementation.slots,
                body: duplicate_vec(&self.implementation.body),
            },
            refs: self.refs.duplicate(),
        }
    }
}

#[derive(Debug, PartialEq)]
pub enum TopLevelStmt {
    FunDecl(WithLoc<FunDecl>),
}

/// The view of [`TopLevelStmt`]: sequences stand for vectors and strings.
pub enum TopLevelStmtView {
    FunDecl(WithLoc<FunDeclView>),
}

impl View for TopLevelStmt {
    type V = TopLevelStmtView;

    open spec fn view(&self) -> TopLevelStmtView {
        match self {
            TopLevelStmt::FunDecl(f) => TopLevelStmtView::FunDecl(Ax { a: f.a, v: f.v@ }),
        }
    }
}

impl TopLevelStmt {
    /// A copy of the statement.
    pub fn duplicate(&self) -> (r: TopLevelStmt)
        ensures
            r@ == self@,
    {
        match self {
            TopLevelStmt::FunDecl(f) => TopLevelStmt::FunDecl(Ax { a: f.a, v: f.v.duplicate() }),
        }
    }
}

/// The fragments of a program, in the order of their declaration.
#[derive(Debug, PartialEq)]
pub struct Module {
    pub statements: Vec<TopLevelStmt>,
}

/// The view of [`Module`]: sequences stand for vectors and strings.
pub struct ModuleView {
    pub statements: Seq<TopLevelStmtView>,
}

/// The views of top-level statements, in order.
pub open spec fn top_level_views(s: Seq<TopLevelStmt>) -> Seq<TopLevelStmtView> {
    Seq::new(s.len(), |i: int| s[i]@)
}

impl View for Module {
    type V = ModuleView;

    open spec fn view(&self) -> ModuleView {
        ModuleView { statements: top_level_views(self.statements@) }
    }
}

impl Module {
    /// The fragments of `self` followed by those of `other`.
    pub fn add(&self, other: &Module) -> (r: Module)
        ensures
            r@.statements == self@.statements + other@.statements,
    {
        let mut statements: Vec<TopLevelStmt> = Vec::new();
        let mut i: usize = 0;
        while i < self.statements.len()
            invariant
                i <= self.statements.len(),
                statements@.len() == i,
                forall|m: int| 0 <= m < i ==> statements@[m]@ == self.statements@[m]@,
            decreases self.statements.len() - i,
        {
            statements.push(self.statements[i].duplicate());
            i += 1;
        }
        let mut j: usize = 0;
        while j < other.statements.len()
            invariant
                j <= other.statements.len(),
                statements@.len() == self.statements@.len() + j,
                forall|m: int|
                    0 <= m < self.statements@.len() ==> statements@[m]@ == self.statements@[m]@,
                forall|m: int|
                    0 <= m < j ==> statements@[self.statements@.len() + m]@
                        == other.statements@[m]@,
            decreases other.statements.len() - j,
        {
            statements.push(other.statements[j].duplicate());
            j += 1;
        }
        assert(top_level_views(statements@) =~= self@.statements + other@.statements);
        Module { statements }
    }
}

} // verus!
