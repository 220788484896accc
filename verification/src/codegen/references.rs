use vstd::prelude::*;
use crate::codegen::codegen::{
    deeper, generated_block, generated_body, generated_load, generated_loads, generated_stmt,
    generated_value, registered_params, Code, Slots,
};
use crate::codegen::fragment::Instr;
use crate::codegen::types::{BlockType, Instruction};
use crate::simplifier::references::{block_calls_within, stmt_calls_within};
use crate::simplifier::simple;

verus! {

/// Every open call of the code names its callee by a number below `n`.
pub open spec fn code_within(code: Code, n: nat) -> bool {
    forall|i: int|
        0 <= i < code.len() ==> match #[trigger] code[i] {
            Instr::Call(c) => c.fun.id < n,
            Instr::Raw(_) => true,
        }
}

proof fn lemma_raw(code: Code, r: Instruction, n: nat)
    requires
        code_within(code, n),
    ensures
        code_within(code.push(Instr::Raw(r)), n),
{
    let next = code.push(Instr::Raw(r));
    assert forall|i: int| 0 <= i < next.len() implies match #[trigger] next[i] {
        Instr::Call(c) => c.fun.id < n,
        Instr::Raw(_) => true,
    } by {
        if i < code.len() {
            assert(next[i] == code[i]);
        }
    }
}

proof fn lemma_load(slots: Slots, code: Code, id: simple::Ident, n: nat)
    requires
        code_within(code, n),
    ensures
        match generated_load(slots, code, id) {
            Ok((_, c)) => code_within(c, n),
            Err(_) => true,
        },
{
    match generated_load(slots, code, id) {
        Err(_) => {},
        Ok((_, c)) => {
            assert(c.last() is Raw);
            lemma_raw(code, c.last()->Raw_0, n);
            assert(c =~= code.push(c.last()));
        },
    }
}

proof fn lemma_loads(slots: Slots, code: Code, ids: Seq<simple::Ident>, k: nat, n: nat)
    requires
        code_within(code, n),
    ensures
        match generated_loads(slots, code, ids, k) {
            Ok((_, c)) => code_within(c, n),
            Err(_) => true,
        },
    decreases ids.len() - k,
{
    if k < ids.len() {
        lemma_load(slots, code, ids[k as int], n);
        match generated_load(slots, code, ids[k as int]) {
            Err(_) => {},
            Ok((s, c)) => {
                lemma_loads(s, c, ids, k + 1, n);
            },
        }
    }
}

proof fn lemma_value(slots: Slots, code: Code, value: simple::AssignmentValueView, n: nat)
    requires
        code_within(code, n),
        match value {
            simple::AssignmentValueView::Call(c) => c.v.fun_name.v.id < n,
            _ => true,
        },
    ensures
        match generated_value(slots, code, value) {
            Ok((_, c)) => code_within(c, n),
            Err(_) => true,
        },
{
    match value {
        simple::AssignmentValueView::LitNum(i) => {
            lemma_raw(code, Instruction::I32Const(i.v.0), n);
        },
        simple::AssignmentValueView::Ident(id) => {
            lemma_load(slots, code, id, n);
        },
        simple::AssignmentValueView::Call(c) => {
            lemma_loads(slots, code, c.v.arguments.v, 0, n);
            match generated_loads(slots, code, c.v.arguments.v, 0) {
                Err(_) => {},
                Ok((_, c2)) => {
                    let next = generated_value(slots, code, value)->Ok_0.1;
                    assert forall|i: int| 0 <= i < next.len() implies match #[trigger] next[i] {
                        Instr::Call(c) => c.fun.id < n,
                        Instr::Raw(_) => true,
                    } by {
                        if i < c2.len() {
                            assert(next[i] == c2[i]);
                        }
                    }
                },
            }
        },
    }
}

proof fn lemma_stmt(slots: Slots, code: Code, depth: Option<u32>, s: simple::FunStmtView, n: nat)
    requires
        code_within(code, n),
        stmt_calls_within(s, n),
    ensures
        match generated_stmt(slots, code, depth, s) {
            Ok((_, c)) => code_within(c, n),
            Err(_) => true,
        },
    decreases s,
{
    match s {
        simple::FunStmtView::Assignment(a) => {
            lemma_value(slots, code, a.v.value, n);
            match generated_stmt(slots, code, depth, s) {
                Err(_) => {},
                Ok((_, c)) => {
                    let c1 = generated_value(slots, code, a.v.value)->Ok_0.1;
                    assert(c.last() is Raw);
                    lemma_raw(c1, c.last()->Raw_0, n);
                },
            }
        },
        simple::FunStmtView::Return(id) => {
            lemma_load(slots, code, id, n);
            match generated_load(slots, code, id) {
                Err(_) => {},
                Ok((_, c1)) => {
                    lemma_raw(c1, Instruction::Return, n);
                },
            }
        },
        simple::FunStmtView::Nop => {},
        simple::FunStmtView::If(i) => {
            lemma_load(slots, code, i.condition, n);
            match generated_load(slots, code, i.condition) {
                Err(_) => {},
                Ok((s1, c1)) => match deeper(depth) {
                    Err(_) => {},
                    Ok(inner) => {
                        let c1b = c1.push(Instr::Raw(Instruction::If(BlockType::Empty)));
                        lemma_raw(c1, Instruction::If(BlockType::Empty), n);
                        lemma_block(s1, c1b, inner, i.then_.v, 0, n);
                        match generated_block(s1, c1b, inner, i.then_.v, 0) {
                            Err(_) => {},
                            Ok((s2, c2)) => match i.else_ {
                                None => {
                                    lemma_raw(c2, Instruction::End, n);
                                },
                                Some(e) => {
                                    lemma_raw(c2, Instruction::Else, n);
                                    let c2b = c2.push(Instr::Raw(Instruction::Else));
                                    lemma_block(s2, c2b, inner, e.v, 0, n);
                                    match generated_block(s2, c2b, inner, e.v, 0) {
                                        Err(_) => {},
                                        Ok((_, c3)) => {
                                            lemma_raw(c3, Instruction::End, n);
                                        },
                                    }
                                },
                            },
                        }
                    },
                },
            }
        },
        simple::FunStmtView::Loop(l) => {
            let c0 = code.push(Instr::Raw(Instruction::Block(BlockType::Empty)));
            lemma_raw(code, Instruction::Block(BlockType::Empty), n);
            lemma_raw(c0, Instruction::Loop(BlockType::Empty), n);
            let c0b = c0.push(Instr::Raw(Instruction::Loop(BlockType::Empty)));
            lemma_block(slots, c0b, Some(0u32), l.v.body.v, 0, n);
            match generated_block(slots, c0b, Some(0u32), l.v.body.v, 0) {
                Err(_) => {},
                Ok((_, c1)) => {
                    lemma_raw(c1, Instruction::Br(0), n);
                    let c2 = c1.push(Instr::Raw(Instruction::Br(0)));
                    lemma_raw(c2, Instruction::End, n);
                    lemma_raw(c2.push(Instr::Raw(Instruction::End)), Instruction::End, n);
                },
            }
        },
        simple::FunStmtView::Break => {
            match depth {
                None => {},
                Some(d) => {
                    if d < u32::MAX {
                        lemma_raw(code, Instruction::Br((d + 1) as u32), n);
                    }
                },
            }
        },
    }
}

proof fn lemma_block(
    slots: Slots,
    code: Code,
    depth: Option<u32>,
    stmts: Seq<simple::FunStmtView>,
    k: nat,
    n: nat,
)
    requires
        code_within(code, n),
        block_calls_within(stmts, n),
    ensures
        match generated_block(slots, code, depth, stmts, k) {
            Ok((_, c)) => code_within(c, n),
            Err(_) => true,
        },
    decreases stmts, stmts.len() - k,
{
    if k < stmts.len() {
        lemma_stmt(slots, code, depth, stmts[k as int], n);
        match generated_stmt(slots, code, depth, stmts[k as int]) {
            Err(_) => {},
            Ok((s, c)) => {
                lemma_block(s, c, depth, stmts, k + 1, n);
            },
        }
    }
}

/// Code generation makes up no callee: every open call of the code names one
/// that a call of the function names.
pub proof fn lemma_generated_calls_within(f: simple::FunImplView, n: nat)
    requires
        block_calls_within(f.body.v, n),
    ensures
        match generated_body(f) {
            Ok((_, code)) => code_within(code, n),
            Err(_) => true,
        },
{
    match registered_params(Seq::empty(), f.parameters.v, 0) {
        Err(_) => {},
        Ok(slots) => {
            lemma_block(slots, Seq::empty(), None, f.body.v, 0, n);
        },
    }
}

} // verus!
