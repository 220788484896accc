use vstd::prelude::*;
use crate::codegen::codegen::{
    distinct, generated_block, generated_body, generated_load, generated_loads, generated_stmt,
    generated_value, registered_params, resolved, slot_of, Code, Slots, Variable,
};
use crate::codegen::codegen::{deeper, variable_of};
use crate::codegen::error::Error;
use crate::codegen::fragment::Instr;
use crate::simplifier::laws::{block_enclosed, stmt_enclosed};
use crate::codegen::types::{BlockType, Instruction};
use crate::renamer::plain::LocalIdent;
use crate::simplifier::simple;
use crate::util::loc::WithTag;

verus! {

/// `b` starts with `a`: no slot that was given out changes later.
pub open spec fn extends(a: Slots, b: Slots) -> bool {
    a.len() <= b.len() && forall|i: int| 0 <= i < a.len() ==> a[i] == b[i]
}

/// In a table without repetition the slot of a variable is the position where it stands.
pub proof fn lemma_slot_is_position(slots: Slots, i: int, from: nat)
    requires
        distinct(slots),
        0 <= from <= i < slots.len(),
    ensures
        slot_of(slots, slots[i], from) == Some(i as nat),
    decreases i - from,
{
    if from < i {
        lemma_slot_is_position(slots, i, from + 1);
    }
}

proof fn lemma_slot_absent(slots: Slots, v: Variable, from: nat)
    ensures
        slot_of(slots, v, from).is_none() ==> forall|j: int|
            from <= j < slots.len() ==> slots[j] != v,
    decreases slots.len() - from,
{
    if from < slots.len() {
        lemma_slot_absent(slots, v, from + 1);
    }
}

proof fn lemma_resolved(slots: Slots, v: Variable)
    requires
        distinct(slots),
    ensures
        match resolved(slots, v) {
            Ok((s, _)) => distinct(s) && extends(slots, s),
            Err(_) => true,
        },
{
    lemma_slot_absent(slots, v, 0);
}

proof fn lemma_loads(slots: Slots, code: Code, ids: Seq<simple::Ident>, k: nat)
    requires
        distinct(slots),
    ensures
        match generated_loads(slots, code, ids, k) {
            Ok((s, _)) => distinct(s) && extends(slots, s),
            Err(_) => true,
        },
    decreases ids.len() - k,
{
    if k < ids.len() {
        lemma_resolved(slots, variable_of(ids[k as int]));
        match generated_load(slots, code, ids[k as int]) {
            Err(_) => {},
            Ok((s, c)) => {
                lemma_loads(s, c, ids, k + 1);
            },
        }
    }
}

proof fn lemma_value(slots: Slots, code: Code, value: simple::AssignmentValueView)
    requires
        distinct(slots),
    ensures
        match generated_value(slots, code, value) {
            Ok((s, _)) => distinct(s) && extends(slots, s),
            Err(_) => true,
        },
{
    match value {
        simple::AssignmentValueView::LitNum(_) => {},
        simple::AssignmentValueView::Ident(id) => {
            lemma_resolved(slots, variable_of(id));
        },
        simple::AssignmentValueView::Call(c) => {
            lemma_loads(slots, code, c.v.arguments.v, 0);
        },
    }
}

proof fn lemma_stmt(slots: Slots, code: Code, depth: Option<u32>, s: simple::FunStmtView)
    requires
        distinct(slots),
    ensures
        match generated_stmt(slots, code, depth, s) {
            Ok((t, _)) => distinct(t) && extends(slots, t),
            Err(_) => true,
        },
    decreases s,
{
    match s {
        simple::FunStmtView::Assignment(a) => {
            lemma_value(slots, code, a.v.value);
            match generated_value(slots, code, a.v.value) {
                Err(_) => {},
                Ok((s1, _)) => {
                    lemma_resolved(s1, variable_of(a.v.target));
                },
            }
        },
        simple::FunStmtView::Return(id) => {
            lemma_resolved(slots, variable_of(id));
        },
        simple::FunStmtView::Nop => {},
        simple::FunStmtView::If(i) => {
            lemma_resolved(slots, variable_of(i.condition));
            match generated_load(slots, code, i.condition) {
                Err(_) => {},
                Ok((s1, c1)) => match deeper(depth) {
                    Err(_) => {},
                    Ok(inner) => {
                        let c1b = c1.push(Instr::Raw(Instruction::If(BlockType::Empty)));
                        lemma_block(s1, c1b, inner, i.then_.v, 0);
                        match generated_block(s1, c1b, inner, i.then_.v, 0) {
                            Err(_) => {},
                            Ok((s2, c2)) => match i.else_ {
                                None => {},
                                Some(e) => {
                                    lemma_block(
                                        s2,
                                        c2.push(Instr::Raw(Instruction::Else)),
                                        inner,
                                        e.v,
                                        0,
                                    );
                                },
                            },
                        }
                    },
                },
            }
        },
        simple::FunStmtView::Loop(l) => {
            lemma_block(
                slots,
                code.push(Instr::Raw(Instruction::Block(BlockType::Empty))).push(
                    Instr::Raw(Instruction::Loop(BlockType::Empty)),
                ),
                Some(0u32),
                l.v.body.v,
                0,
            );
        },
        simple::FunStmtView::Break => {},
    }
}

proof fn lemma_block(slots: Slots, code: Code, depth: Option<u32>, stmts: Seq<simple::FunStmtView>, k: nat)
    requires
        distinct(slots),
    ensures
        match generated_block(slots, code, depth, stmts, k) {
            Ok((t, _)) => distinct(t) && extends(slots, t),
            Err(_) => true,
        },
    decreases stmts, stmts.len() - k,
{
    if k < stmts.len() {
        lemma_stmt(slots, code, depth, stmts[k as int]);
        match generated_stmt(slots, code, depth, stmts[k as int]) {
            Err(_) => {},
            Ok((s, c)) => {
                lemma_block(s, c, depth, stmts, k + 1);
            },
        }
    }
}

proof fn lemma_params(slots: Slots, params: Seq<WithTag<LocalIdent>>, k: nat)
    requires
        distinct(slots),
        slots.len() == k <= params.len(),
        forall|i: int| 0 <= i < k ==> slots[i] == Variable::Local(params[i].v.id),
    ensures
        match registered_params(slots, params, k) {
            Ok(s) => distinct(s) && s.len() == params.len() && forall|i: int|
                0 <= i < params.len() ==> s[i] == Variable::Local(params[i].v.id),
            Err(_) => true,
        },
    decreases params.len() - k,
{
    if k < params.len() {
        let v = Variable::Local(params[k as int].v.id);
        lemma_slot_absent(slots, v, 0);
        if slot_of(slots, v, 0).is_none() && slots.len() < u32::MAX {
            lemma_params(slots.push(v), params, k + 1);
        }
    }
}

/// Slots are unique and without gaps: in the slot table of a compiled
/// function no variable stands twice, every variable has the slot of its
/// position, so that the slots in use are exactly those from 0 up to the
/// slot count, and the parameters hold the first slots in their order.
pub proof fn lemma_slots_distinct_and_contiguous(f: simple::FunImplView)
    ensures
        match generated_body(f) {
            Ok((slots, _)) => {
                &&& distinct(slots)
                &&& forall|i: int|
                    0 <= i < slots.len() ==> slot_of(slots, #[trigger] slots[i], 0) == Some(i as nat)
                &&& f.parameters.v.len() <= slots.len()
                &&& forall|i: int|
                    0 <= i < f.parameters.v.len() ==> slots[i] == Variable::Local(
                        f.parameters.v[i].v.id,
                    )
            },
            Err(_) => true,
        },
{
    lemma_params(Seq::empty(), f.parameters.v, 0);
    match registered_params(Seq::empty(), f.parameters.v, 0) {
        Err(_) => {},
        Ok(s0) => {
            lemma_block(s0, Seq::empty(), None, f.body.v, 0);
            match generated_block(s0, Seq::empty(), None, f.body.v, 0) {
                Err(_) => {},
                Ok((slots, _)) => {
                    assert forall|i: int| 0 <= i < slots.len() implies slot_of(
                        slots,
                        #[trigger] slots[i],
                        0,
                    ) == Some(i as nat) by {
                        lemma_slot_is_position(slots, i, 0);
                    }
                },
            }
        },
    }
}

proof fn lemma_stmt_never_underflows(slots: Slots, code: Code, depth: Option<u32>, s: simple::FunStmtView)
    requires
        stmt_enclosed(s, depth.is_some()),
    ensures
        generated_stmt(slots, code, depth, s) != Err::<(Slots, Code), Error>(Error::BreakOutsideLoop),
    decreases s,
{
    match s {
        simple::FunStmtView::If(i) => {
            match generated_load(slots, code, i.condition) {
                Err(e) => {
                    assert(e == Error::TooManySlots);
                },
                Ok((s1, c1)) => match deeper(depth) {
                    Err(e) => {
                        assert(e == Error::TooDeep);
                    },
                    Ok(inner) => {
                        assert(inner.is_some() == depth.is_some());
                        assert(block_enclosed(i.then_.v, depth.is_some()));
                        let c1b = c1.push(Instr::Raw(Instruction::If(BlockType::Empty)));
                        lemma_block_never_underflows(s1, c1b, inner, i.then_.v, 0);
                        match generated_block(s1, c1b, inner, i.then_.v, 0) {
                            Err(_) => {},
                            Ok((s2, c2)) => match i.else_ {
                                None => {},
                                Some(e) => {
                                    assert(block_enclosed(e.v, depth.is_some()));
                                    lemma_block_never_underflows(
                                        s2,
                                        c2.push(Instr::Raw(Instruction::Else)),
                                        inner,
                                        e.v,
                                        0,
                                    );
                                },
                            },
                        }
                    },
                },
            }
        },
        simple::FunStmtView::Assignment(a) => {
            match a.v.value {
                simple::AssignmentValueView::Call(c) => {
                    lemma_loads_errors(slots, code, c.v.arguments.v, 0);
                },
                _ => {},
            }
        },
        simple::FunStmtView::Loop(l) => {
            assert(block_enclosed(l.v.body.v, true));
            lemma_block_never_underflows(
                slots,
                code.push(Instr::Raw(Instruction::Block(BlockType::Empty))).push(
                    Instr::Raw(Instruction::Loop(BlockType::Empty)),
                ),
                Some(0u32),
                l.v.body.v,
                0,
            );
        },
        _ => {},
    }
}

proof fn lemma_block_never_underflows(
    slots: Slots,
    code: Code,
    depth: Option<u32>,
    stmts: Seq<simple::FunStmtView>,
    k: nat,
)
    requires
        block_enclosed(stmts, depth.is_some()),
    ensures
        generated_block(slots, code, depth, stmts, k) != Err::<(Slots, Code), Error>(
            Error::BreakOutsideLoop,
        ),
    decreases stmts, stmts.len() - k,
{
    if k < stmts.len() {
        lemma_stmt_never_underflows(slots, code, depth, stmts[k as int]);
        match generated_stmt(slots, code, depth, stmts[k as int]) {
            Err(_) => {},
            Ok((s, c)) => {
                lemma_block_never_underflows(s, c, depth, stmts, k + 1);
            },
        }
    }
}

/// The depth bookkeeping never underflows: where every `Break` of a function
/// lies in a loop, code generation does not fail for want of a loop.
pub proof fn lemma_enclosed_breaks_find_their_loop(f: simple::FunImplView)
    requires
        block_enclosed(f.body.v, false),
    ensures
        generated_body(f) != Err::<(Slots, Code), Error>(Error::BreakOutsideLoop),
{
    match registered_params(Seq::empty(), f.parameters.v, 0) {
        Err(e) => {
            lemma_params_errors(Seq::empty(), f.parameters.v, 0);
        },
        Ok(slots) => {
            lemma_block_never_underflows(slots, Seq::empty(), None, f.body.v, 0);
        },
    }
}

proof fn lemma_loads_errors(slots: Slots, code: Code, ids: Seq<simple::Ident>, k: nat)
    ensures
        generated_loads(slots, code, ids, k) != Err::<(Slots, Code), Error>(Error::BreakOutsideLoop),
    decreases ids.len() - k,
{
    if k < ids.len() {
        match generated_load(slots, code, ids[k as int]) {
            Err(_) => {},
            Ok((s, c)) => {
                lemma_loads_errors(s, c, ids, k + 1);
            },
        }
    }
}

proof fn lemma_params_errors(slots: Slots, params: Seq<WithTag<LocalIdent>>, k: nat)
    ensures
        registered_params(slots, params, k) != Err::<Slots, Error>(Error::BreakOutsideLoop),
    decreases params.len() - k,
{
    if k < params.len() {
        lemma_params_errors(slots.push(Variable::Local(params[k as int].v.id)), params, k + 1);
    }
}

} // verus!
