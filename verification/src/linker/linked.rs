use vstd::prelude::*;
use crate::codegen::types::{Instruction, ValType};
use crate::parser::syntax;
use crate::parser::syntax::lident_view;
use crate::util::ax::Ax;
use crate::util::loc::WithLoc;

verus! {

/// An instruction of a linked function: every call names its callee by index.
#[derive(Debug, Clone, Copy, PartialEq, Eq, Structural)]
pub struct Instr {
    pub instr: Instruction,
}

/// The code of one linked function: the types of its parameters, the number
/// of slots it uses (parameters included), and its instructions.
#[derive(Debug, Clone, PartialEq, Eq)]
pub struct FunImpl {
    pub params: Vec<ValType>,
    pub slots: u32,
    pub body: Vec<Instr>,
}

/// The view of [`FunImpl`]: sequences stand for vectors and strings.
pub struct FunImplView {
    pub params: Seq<ValType>,
    pub slots: u32,
    pub body: Seq<Instr>,
}

impl View for FunImpl {
    type V = FunImplView;

    open spec fn view(&self) -> FunImplView {
        FunImplView { params: self.params@, slots: self.slots, body: self.body@ }
    }
}

/// One function of a linked module.
#[derive(Debug, PartialEq)]
pub struct FunDecl {
    pub name: WithLoc<syntax::Ident>,
    pub export: bool,
    pub implementation: FunImpl,
}

/// The view of [`FunDecl`]: sequences stand for vectors and strings.
pub struct FunDeclView {
    pub name: WithLoc<Seq<char>>,
    pub export: bool,
    pub implementation: FunImplView,
}

impl View for FunDecl {
    type V = FunDeclView;

    open spec fn view(&self) -> FunDeclView {
        FunDeclView {
            name: lident_view(self.name),
            export: self.export,
            implementation: self.implementation@,
        }
    }
}

#[derive(Debug, PartialEq)]
pub enum TopLevelStmt {
    FunDecl(WithLoc<FunDecl>),
}

/// The view of [`TopLevelStmt`]: sequences stand for vectors and strings.
pub enum TopLevelStmtView {
    FunDecl(WithLoc<FunDeclView>),
}

impl View for TopLevelStmt {
    type V = TopLevelStmtView;

    open spec fn view(&self) -> TopLevelStmtView {
        match self {
            TopLevelStmt::FunDecl(f) => TopLevelStmtView::FunDecl(Ax { a: f.a, v: f.v@ }),
        }
    }
}

/// A linked module: its functions in the order of their indices.
#[derive(Debug, PartialEq)]
pub struct Module {
    pub statements: Vec<TopLevelStmt>,
}

/// The view of [`Module`]: sequences stand for vectors and strings.
pub struct ModuleView {
    pub statements: Seq<TopLevelStmtView>,
}

/// The views of top-level statements, in order.
pub open spec fn top_level_views(s: Seq<TopLevelStmt>) -> Seq<TopLevelStmtView> {
    Seq::new(s.len(), |i: int| s[i]@)
}

impl View for Module {
    type V = ModuleView;

    open spec fn view(&self) -> ModuleView {
        ModuleView { statements: top_level_views(self.statements@) }
    }
}

} // verus!
