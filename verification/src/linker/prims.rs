use vstd::prelude::*;
use crate::codegen::fragment;
use crate::codegen::fragment::Instr;
use crate::codegen::types::{Instruction, ValType};
use crate::parser::syntax;
use crate::util::ax::Ax;
use crate::util::bimap::Bimap;
use crate::util::loc::SrcLoc;

verus! {

/// The fragment of a primitive: `name` behind the prefix that marks
/// primitives, the given parameters and body, no export, no open call.
pub open spec fn primitive(name: Seq<char>, params: Seq<ValType>, body: Seq<Instr>) -> fragment::TopLevelStmtView {
    fragment::TopLevelStmtView::FunDecl(
        Ax {
            a: SrcLoc::Unknown,
            v: fragment::FunDeclView {
                name: Ax { a: SrcLoc::Unknown, v: "__prim_"@ + name },
                export: false,
                implementation: fragment::FunImplView {
                    params,
                    slots: params.len() as u32,
                    body,
                },
                refs: Seq::empty(),
            },
        },
    )
}

/// The fragment of a primitive with two operands: it loads both and applies `instr`.
pub open spec fn primitive_binop(name: Seq<char>, instr: Instruction) -> fragment::TopLevelStmtView {
    primitive(
        name,
        seq![ValType::I32, ValType::I32],
        seq![
            Instr::Raw(Instruction::LocalGet(0)),
            Instr::Raw(Instruction::LocalGet(1)),
            Instr::Raw(instr),
        ],
    )
}

/// The primitives that every program can call: the unsigned comparisons,
/// equality and addition.
pub open spec fn primitives() -> fragment::ModuleView {
    fragment::ModuleView {
        statements: seq![
            primitive_binop("gt?"@, Instruction::I32GtU),
            primitive_binop("gte?"@, Instruction::I32GeU),
            primitive_binop("lt?"@, Instruction::I32LtU),
            primitive_binop("lte?"@, Instruction::I32LeU),
            primitive_binop("eq?"@, Instruction::I32Eq),
            primitive_binop("add"@, Instruction::I32Add),
        ],
    }
}

/// The fragments of the primitives.
pub fn prims() -> (r: fragment::Module)
    ensures
        r@ == primitives(),
{
    let mut stmts: Vec<fragment::TopLevelStmt> = Vec::new();
    stmts.push(mk_prim_binop("gt?", Instruction::I32GtU));
    stmts.push(mk_prim_binop("gte?", Instruction::I32GeU));
    stmts.push(mk_prim_binop("lt?", Instruction::I32LtU));
    stmts.push(mk_prim_binop("lte?", Instruction::I32LeU));
    stmts.push(mk_prim_binop("eq?", Instruction::I32Eq));
    stmts.push(mk_prim_binop("add", Instruction::I32Add));
    let r = fragment::Module { statements: stmts };
    assert(r@.statements =~= primitives().statements);
    r
}

fn mk_prim(name: &str, params: Vec<ValType>, body: Vec<Instr>) -> (r: fragment::TopLevelStmt)
    requires
        params@.len() <= u32::MAX,
    ensures
        r@ == primitive(name@, params@, body@),
{
    let slots = params.len() as u32;
    fragment::TopLevelStmt::FunDecl(
        Ax {
            a: SrcLoc::Unknown,
            v: fragment::FunDecl {
                name: Ax {
                    a: SrcLoc::Unknown,
                    v: syntax::Ident(String::from_str("__prim_").concat(name)),
                },
                export: false,
                implementation: fragment::FunImpl { params, slots, body },
                refs: Bimap::new(),
            },
        },
    )
}

fn mk_prim_binop(name: &str, instr: Instruction) -> (r: fragment::TopLevelStmt)
    ensures
        r@ == primitive_binop(name@, instr),
{
    let mut params: Vec<ValType> = Vec::new();
    params.push(ValType::I32);
    params.push(ValType::I32);
    let mut body: Vec<Instr> = Vec::new();
    body.push(Instr::Raw(Instruction::LocalGet(0)));
    body.push(Instr::Raw(Instruction::LocalGet(1)));
    body.push(Instr::Raw(instr));
    assert(params@ =~= seq![ValType::I32, ValType::I32]);
    assert(body@ =~= seq![
        Instr::Raw(Instruction::LocalGet(0)),
        Instr::Raw(Instruction::LocalGet(1)),
        Instr::Raw(instr),
    ]);
    mk_prim(name, params, body)
}

} // verus!
