use vstd::prelude::*;
use crate::codegen::error::Error;
use crate::codegen::fragment;
use crate::codegen::fragment::Instr;
use crate::codegen::types::{BlockType, Instruction, ValType};
use crate::parser::syntax::duplicate_lident;
use crate::renamer::plain::LocalIdent;
use crate::simplifier::simple;
use crate::util::ax::Ax;
use crate::util::loc::WithTag;

verus! {

/// What a slot holds: a local of the function or a temporary. Tags play no part.
#[derive(Debug, Clone, Copy, PartialEq, Eq, Structural)]
pub enum Variable {
    Local(u32),
    SingleUse(u32),
}

/// The variable that an identifier names.
pub open spec fn variable_of(id: simple::Ident) -> Variable {
    match id {
        simple::Ident::Local(l) => Variable::Local(l.v.id),
        simple::Ident::SingleUse(s) => Variable::SingleUse(s.v.id),
    }
}

/// The slot table: the variables in the order of their first use. The slot
/// of a variable is its position.
pub type Slots = Seq<Variable>;

/// The instructions made so far.
pub type Code = Seq<Instr>;

/// The position of the first `v` at or after `from`.
pub open spec fn slot_of(slots: Slots, v: Variable, from: nat) -> Option<nat>
    decreases slots.len() - from,
{
    if from >= slots.len() {
        None
    } else if slots[from as int] == v {
        Some(from)
    } else {
        slot_of(slots, v, from + 1)
    }
}

/// The slot of `v`: the one it has, else the next free one.
pub open spec fn resolved(slots: Slots, v: Variable) -> Result<(Slots, u32), Error> {
    match slot_of(slots, v, 0) {
        Some(i) => Ok((slots, i as u32)),
        None => if slots.len() >= u32::MAX {
            Err(Error::TooManySlots)
        } else {
            Ok((slots.push(v), slots.len() as u32))
        },
    }
}

/// The code that loads `id`.
pub open spec fn generated_load(slots: Slots, code: Code, id: simple::Ident) -> Result<
    (Slots, Code),
    Error,
> {
    match resolved(slots, variable_of(id)) {
        Err(e) => Err(e),
        Ok((s, slot)) => Ok((s, code.push(Instr::Raw(Instruction::LocalGet(slot))))),
    }
}

/// The code that loads the identifiers of `ids` from position `k` on, in order.
pub open spec fn generated_loads(slots: Slots, code: Code, ids: Seq<simple::Ident>, k: nat) -> Result<
    (Slots, Code),
    Error,
>
    decreases ids.len() - k,
{
    if k >= ids.len() {
        Ok((slots, code))
    } else {
        match generated_load(slots, code, ids[k as int]) {
            Err(e) => Err(e),
            Ok((s, c)) => generated_loads(s, c, ids, k + 1),
        }
    }
}

/// The code that leaves `value` on the stack: a constant, a load, or the
/// loads of the arguments and the call, its callee still open.
pub open spec fn generated_value(slots: Slots, code: Code, value: simple::AssignmentValueView) -> Result<
    (Slots, Code),
    Error,
> {
    match value {
        simple::AssignmentValueView::LitNum(i) => Ok(
            (slots, code.push(Instr::Raw(Instruction::I32Const(i.v.0)))),
        ),
        simple::AssignmentValueView::Ident(id) => generated_load(slots, code, id),
        simple::AssignmentValueView::Call(c) => match generated_loads(
            slots,
            code,
            c.v.arguments.v,
            0,
        ) {
            Err(e) => Err(e),
            Ok((s, c2)) => Ok(
                (
                    s,
                    c2.push(
                        Instr::Call(
                            fragment::Call {
                                fun: c.v.fun_name.v,
                                arity: c.v.arguments.v.len() as usize,
                            },
                        ),
                    ),
                ),
            ),
        },
    }
}

/// The depth inside one more conditional. `depth` counts the conditionals
/// between a statement and the body of its innermost loop; outside every loop
/// there is nothing to count.
pub open spec fn deeper(depth: Option<u32>) -> Result<Option<u32>, Error> {
    match depth {
        None => Ok(None),
        Some(d) => if d == u32::MAX {
            Err(Error::TooDeep)
        } else {
            Ok(Some((d + 1) as u32))
        },
    }
}

/// The code of one statement, added to `code`. A loop is a block around a
/// loop; its body ends with the branch back to the loop. A `Break` at depth
/// `d` branches past the `d` conditionals, the loop and the block around it.
pub open spec fn generated_stmt(slots: Slots, code: Code, depth: Option<u32>, s: simple::FunStmtView) -> Result<
    (Slots, Code),
    Error,
>
    decreases s,
{
    match s {
        simple::FunStmtView::Assignment(a) => match generated_value(slots, code, a.v.value) {
            Err(e) => Err(e),
            Ok((s1, c1)) => match resolved(s1, variable_of(a.v.target)) {
                Err(e) => Err(e),
                Ok((s2, slot)) => Ok((s2, c1.push(Instr::Raw(Instruction::LocalSet(slot))))),
            },
        },
        simple::FunStmtView::Return(id) => match generated_load(slots, code, id) {
            Err(e) => Err(e),
            Ok((s1, c1)) => Ok((s1, c1.push(Instr::Raw(Instruction::Return)))),
        },
        simple::FunStmtView::Nop => Ok((slots, code)),
        simple::FunStmtView::If(i) => match generated_load(slots, code, i.condition) {
            Err(e) => Err(e),
            Ok((s1, c1)) => match deeper(depth) {
                Err(e) => Err(e),
                Ok(inner) => match generated_block(
                    s1,
                    c1.push(Instr::Raw(Instruction::If(BlockType::Empty))),
                    inner,
                    i.then_.v,
                    0,
                ) {
                    Err(e) => Err(e),
                    Ok((s2, c2)) => match i.else_ {
                        None => Ok((s2, c2.push(Instr::Raw(Instruction::End)))),
                        Some(e) => match generated_block(
                            s2,
                            c2.push(Instr::Raw(Instruction::Else)),
                            inner,
                            e.v,
                            0,
                        ) {
                            Err(e) => Err(e),
                            Ok((s3, c3)) => Ok((s3, c3.push(Instr::Raw(Instruction::End)))),
                        },
                    },
                },
            },
        },
        simple::FunStmtView::Loop(l) => match generated_block(
            slots,
            code.push(Instr::Raw(Instruction::Block(BlockType::Empty))).push(
                Instr::Raw(Instruction::Loop(BlockType::Empty)),
            ),
            Some(0u32),
            l.v.body.v,
            0,
        ) {
            Err(e) => Err(e),
            Ok((s1, c1)) => Ok(
                (
                    s1,
                    c1.push(Instr::Raw(Instruction::Br(0))).push(Instr::Raw(Instruction::End)).push(
                        Instr::Raw(Instruction::End),
                    ),
                ),
            ),
        },
        simple::FunStmtView::Break => match depth {
            None => Err(Error::BreakOutsideLoop),
            Some(d) => if d == u32::MAX {
                Err(Error::TooDeep)
            } else {
                Ok((slots, code.push(Instr::Raw(Instruction::Br((d + 1) as u32)))))
            },
        },
    }
}

/// The code of the statements of `stmts` from position `k` on, added to `code`.
pub open spec fn generated_block(
    slots: Slots,
    code: Code,
    depth: Option<u32>,
    stmts: Seq<simple::FunStmtView>,
    k: nat,
) -> Result<(Slots, Code), Error>
    decreases stmts, stmts.len() - k,
{
    if k >= stmts.len() {
        Ok((slots, code))
    } else {
        match generated_stmt(slots, code, depth, stmts[k as int]) {
            Err(e) => Err(e),
            Ok((s, c)) => generated_block(s, c, depth, stmts, k + 1),
        }
    }
}

/// The slot table after the parameters from position `k` on took the next slots.
pub open spec fn registered_params(slots: Slots, params: Seq<WithTag<LocalIdent>>, k: nat) -> Result<
    Slots,
    Error,
>
    decreases params.len() - k,
{
    if k >= params.len() {
        Ok(slots)
    } else {
        match slot_of(slots, Variable::Local(params[k as int].v.id), 0) {
            Some(_) => Err(Error::DuplicateParameter(params[k as int].v)),
            None => if slots.len() >= u32::MAX {
                Err(Error::TooManySlots)
            } else {
                registered_params(slots.push(Variable::Local(params[k as int].v.id)), params, k + 1)
            },
        }
    }
}

/// The slot table and the code of a function: the parameters take the first
/// slots, the other variables follow in the order of their first use.
pub open spec fn generated_body(f: simple::FunImplView) -> Result<(Slots, Code), Error> {
    match registered_params(Seq::empty(), f.parameters.v, 0) {
        Err(e) => Err(e),
        Ok(slots) => generated_block(slots, Seq::empty(), None, f.body.v, 0),
    }
}

/// The fragment of a function. User functions are exported.
pub open spec fn generated_function(decl: simple::FunDeclView) -> Result<fragment::FunDeclView, Error> {
    match generated_body(decl.implementation) {
        Err(e) => Err(e),
        Ok((slots, code)) => Ok(
            fragment::FunDeclView {
                name: decl.name,
                export: true,
                implementation: fragment::FunImplView {
                    params: Seq::new(decl.implementation.parameters.v.len(), |i: int| ValType::I32),
                    slots: slots.len() as u32,
                    body: code,
                },
                refs: decl.refs,
            },
        ),
    }
}

/// The fragment of a top-level statement.
pub open spec fn generated_top_level(s: simple::TopLevelStmtView) -> Result<
    fragment::TopLevelStmtView,
    Error,
> {
    match s {
        simple::TopLevelStmtView::FunDecl(f) => match generated_function(f.v) {
            Err(e) => Err(e),
            Ok(d) => Ok(fragment::TopLevelStmtView::FunDecl(Ax { a: f.a, v: d })),
        },
    }
}

/// The fragments of the statements from position `k` on, added to `acc`.
pub open spec fn generated_statements(
    stmts: Seq<simple::TopLevelStmtView>,
    k: nat,
    acc: Seq<fragment::TopLevelStmtView>,
) -> Result<Seq<fragment::TopLevelStmtView>, Error>
    decreases stmts.len() - k,
{
    if k >= stmts.len() {
        Ok(acc)
    } else {
        match generated_top_level(stmts[k as int]) {
            Err(e) => Err(e),
            Ok(x) => generated_statements(stmts, k + 1, acc.push(x)),
        }
    }
}

/// The fragments of a program: one for each function, in order.
pub open spec fn generated_module(m: simple::ModuleView) -> Result<fragment::ModuleView, Error> {
    match generated_statements(m.statements, 0, Seq::empty()) {
        Err(e) => Err(e),
        Ok(statements) => Ok(fragment::ModuleView { statements }),
    }
}

/// Generates the code of every function of `input`. Each variable of a
/// function gets a slot of its own; a call stays a reference by number into
/// the function's references table.
pub fn run(input: &simple::Module) -> (r: Result<fragment::Module, Error>)
    ensures
        match r {
            Ok(m) => generated_module(input@) == Ok::<fragment::ModuleView, Error>(m@),
            Err(e) => generated_module(input@) == Err::<fragment::ModuleView, Error>(e),
        },
{
    let mut statements: Vec<fragment::TopLevelStmt> = Vec::new();
    let mut k: usize = 0;
    let ghost stmts = input@.statements;
    assert(fragment::top_level_views(statements@) =~= Seq::empty());
    while k < input.statements.len()
        invariant
            k <= input.statements.len(),
            stmts == input@.statements,
            stmts.len() == input.statements@.len(),
            generated_statements(stmts, 0, Seq::empty()) == generated_statements(
                stmts,
                k as nat,
                fragment::top_level_views(statements@),
            ),
        decreases input.statements.len() - k,
    {
        let ghost acc = fragment::top_level_views(statements@);
        assert(stmts[k as int] == input.statements@[k as int]@);
        match &input.statements[k] {
            simple::TopLevelStmt::FunDecl(fun) => {
                match codegen_function(&fun.v) {
                    Err(e) => {
                        return Err(e);
                    },
                    Ok(f) => {
                        let x = fragment::TopLevelStmt::FunDecl(Ax { a: fun.a, v: f });
                        statements.push(x);
                        assert(fragment::top_level_views(statements@) =~= acc.push(x@));
                    },
                }
            },
        }
        k += 1;
    }
    Ok(fragment::Module { statements })
}

fn codegen_function(input_decl: &simple::FunDecl) -> (r: Result<fragment::FunDecl, Error>)
    ensures
        match r {
            Ok(f) => generated_function(input_decl@) == Ok::<fragment::FunDeclView, Error>(f@),
            Err(e) => generated_function(input_decl@) == Err::<fragment::FunDeclView, Error>(e),
        },
{
    let mut instructions: Vec<Instr> = Vec::new();
    let mut state = CodegenState::new();
    let input = &input_decl.implementation;
    let mut params: Vec<ValType> = Vec::new();
    let mut k: usize = 0;
    while k < input.parameters.v.len()
        invariant
            k <= input.parameters.v.len(),
            state.wf(),
            input.parameters.v@ == input_decl@.implementation.parameters.v,
            params@.len() == k,
            forall|i: int| 0 <= i < k ==> params@[i] == ValType::I32,
            registered_params(Seq::empty(), input.parameters.v@, 0) == registered_params(
                state@,
                input.parameters.v@,
                k as nat,
            ),
        decreases input.parameters.v.len() - k,
    {
        match state.register_param(&input.parameters.v[k].v) {
            Err(e) => {
                return Err(e);
            },
            Ok(()) => {},
        }
        params.push(ValType::I32);
        k += 1;
    }
    match codegen_block(&mut state, &mut instructions, None, &input.body.v) {
        Err(e) => {
            return Err(e);
        },
        Ok(()) => {},
    }
    assert(params@ =~= Seq::new(input.parameters.v@.len(), |i: int| ValType::I32));
    let slots = state.slot_count();
    Ok(
        fragment::FunDecl {
            name: duplicate_lident(&input_decl.name),
            export: true,
            implementation: fragment::FunImpl { params, slots, body: instructions },
            refs: input_decl.refs.duplicate(),
        },
    )
}

fn codegen_block(
    state: &mut CodegenState,
    instrs: &mut Vec<Instr>,
    depth: Option<u32>,
    stmts: &Vec<simple::FunStmt>,
) -> (r: Result<(), Error>)
    requires
        old(state).wf(),
    ensures
        final(state).wf(),
        match r {
            Ok(()) => generated_block(
                old(state)@,
                old(instrs)@,
                depth,
                simple::stmts_view(stmts@),
                0,
            ) == Ok::<(Slots, Code), Error>((final(state)@, final(instrs)@)),
            Err(e) => generated_block(
                old(state)@,
                old(instrs)@,
                depth,
                simple::stmts_view(stmts@),
                0,
            ) == Err::<(Slots, Code), Error>(e),
        },
    decreases stmts,
{
    let mut k: usize = 0;
    let ghost views = simple::stmts_view(stmts@);
    while k < stmts.len()
        invariant
            k <= stmts.len(),
            state.wf(),
            views == simple::stmts_view(stmts@),
            generated_block(old(state)@, old(instrs)@, depth, views, 0) == generated_block(
                state@,
                instrs@,
                depth,
                views,
                k as nat,
            ),
        decreases stmts.len() - k,
    {
        assert(views[k as int] == stmts@[k as int]@);
        match codegen_statement(state, instrs, depth, &stmts[k]) {
            Err(e) => {
                return Err(e);
            },
            Ok(()) => {},
        }
        k += 1;
    }
    Ok(())
}

fn codegen_load(state: &mut CodegenState, instrs: &mut Vec<Instr>, id: &simple::Ident) -> (r: Result<
    (),
    Error,
>)
    requires
        old(state).wf(),
    ensures
        final(state).wf(),
        match r {
            Ok(()) => generated_load(old(state)@, old(instrs)@, *id) == Ok::<(Slots, Code), Error>(
                (final(state)@, final(instrs)@),
            ),
            Err(e) => generated_load(old(state)@, old(instrs)@, *id) == Err::<(Slots, Code), Error>(
                e,
            ),
        },
{
    match state.resolve_simple_ident(id) {
        Err(e) => Err(e),
        Ok(slot) => {
            instrs.push(Instr::Raw(Instruction::LocalGet(slot)));
            Ok(())
        },
    }
}

fn codegen_value(state: &mut CodegenState, instrs: &mut Vec<Instr>, value: &simple::AssignmentValue) -> (r:
    Result<(), Error>)
    requires
        old(state).wf(),
    ensures
        final(state).wf(),
        match r {
            Ok(()) => generated_value(old(state)@, old(instrs)@, value@) == Ok::<
                (Slots, Code),
                Error,
            >((final(state)@, final(instrs)@)),
            Err(e) => generated_value(old(state)@, old(instrs)@, value@) == Err::<
                (Slots, Code),
                Error,
            >(e),
        },
{
    match value {
        simple::AssignmentValue::LitNum(i) => {
            instrs.push(Instr::Raw(Instruction::I32Const(i.v.0)));
            Ok(())
        },
        simple::AssignmentValue::Ident(id) => codegen_load(state, instrs, id),
        simple::AssignmentValue::Call(l_call) => {
            let id = l_call.v.fun_name.v;
            let args = &l_call.v.arguments.v;
            let mut k: usize = 0;
            while k < args.len()
                invariant
                    k <= args.len(),
                    state.wf(),
                    value@ == simple::AssignmentValueView::Call(Ax { a: l_call.a, v: l_call.v@ }),
                    args@ == l_call.v@.arguments.v,
                    generated_loads(old(state)@, old(instrs)@, args@, 0) == generated_loads(
                        state@,
                        instrs@,
                        args@,
                        k as nat,
                    ),
                decreases args.len() - k,
            {
                match codegen_load(state, instrs, &args[k]) {
                    Err(e) => {
                        return Err(e);
                    },
                    Ok(()) => {},
                }
                k += 1;
            }
            instrs.push(Instr::Call(fragment::Call { fun: id, arity: args.len() }));
            Ok(())
        },
    }
}

fn codegen_statement(
    state: &mut CodegenState,
    instrs: &mut Vec<Instr>,
    depth: Option<u32>,
    stmt: &simple::FunStmt,
) -> (r: Result<(), Error>)
    requires
        old(state).wf(),
    ensures
        final(state).wf(),
        match r {
            Ok(()) => generated_stmt(old(state)@, old(instrs)@, depth, stmt@) == Ok::<
                (Slots, Code),
                Error,
            >((final(state)@, final(instrs)@)),
            Err(e) => generated_stmt(old(state)@, old(instrs)@, depth, stmt@) == Err::<
                (Slots, Code),
                Error,
            >(e),
        },
    decreases stmt,
{
    match stmt {
        simple::FunStmt::Assignment(l_assignment) => {
            match codegen_value(state, instrs, &l_assignment.v.value) {
                Err(e) => {
                    return Err(e);
                },
                Ok(()) => {},
            }
            match state.resolve_simple_ident(&l_assignment.v.target) {
                Err(e) => Err(e),
                Ok(slot) => {
                    instrs.push(Instr::Raw(Instruction::LocalSet(slot)));
                    Ok(())
                },
            }
        },
        simple::FunStmt::Return(id) => {
            match codegen_load(state, instrs, id) {
                Err(e) => {
                    return Err(e);
                },
                Ok(()) => {},
            }
            instrs.push(Instr::Raw(Instruction::Return));
            Ok(())
        },
        simple::FunStmt::Nop => Ok(()),
        simple::FunStmt::If(if_) => {
            match codegen_load(state, instrs, &if_.condition) {
                Err(e) => {
                    return Err(e);
                },
                Ok(()) => {},
            }
            let inner = match with_non_break_target(depth) {
                Err(e) => {
                    return Err(e);
                },
                Ok(d) => d,
            };
            instrs.push(Instr::Raw(Instruction::If(BlockType::Empty)));
            match codegen_block(state, instrs, inner, &if_.then_.v) {
                Err(e) => {
                    return Err(e);
                },
                Ok(()) => {},
            }
            match &if_.else_ {
                None => {},
                Some(else_) => {
                    instrs.push(Instr::Raw(Instruction::Else));
                    match codegen_block(state, instrs, inner, &else_.v) {
                        Err(e) => {
                            return Err(e);
                        },
                        Ok(()) => {},
                    }
                },
            }
            instrs.push(Instr::Raw(Instruction::End));
            Ok(())
        },
        simple::FunStmt::Loop(loop_) => {
            instrs.push(Instr::Raw(Instruction::Block(BlockType::Empty)));
            instrs.push(Instr::Raw(Instruction::Loop(BlockType::Empty)));
            match codegen_block(state, instrs, with_break_target(), &loop_.v.body.v) {
                Err(e) => {
                    return Err(e);
                },
                Ok(()) => {},
            }
            instrs.push(Instr::Raw(Instruction::Br(0)));
            instrs.push(Instr::Raw(Instruction::End));
            instrs.push(Instr::Raw(Instruction::End));
            Ok(())
        },
        simple::FunStmt::Break() => {
            match depth {
                None => Err(Error::BreakOutsideLoop),
                Some(d) => {
                    if d == 0xffff_ffff {
                        return Err(Error::TooDeep);
                    }
                    instrs.push(Instr::Raw(Instruction::Br(d + 1)));
                    Ok(())
                },
            }
        },
    }
}

/// The depth at the start of a loop's body: no conditional lies between.
fn with_break_target() -> (r: Option<u32>)
    ensures
        r == Some(0u32),
{
    Some(0)
}

/// The depth inside one more conditional.
fn with_non_break_target(depth: Option<u32>) -> (r: Result<Option<u32>, Error>)
    ensures
        r == deeper(depth),
{
    match depth {
        None => Ok(None),
        Some(d) => {
            if d == 0xffff_ffff {
                Err(Error::TooDeep)
            } else {
                Ok(Some(d + 1))
            }
        },
    }
}

// State

/// No variable stands twice in the table.
pub open spec fn distinct(slots: Slots) -> bool {
    forall|i: int, j: int| 0 <= i < j < slots.len() ==> slots[i] != slots[j]
}

/// The slot table of the function whose code is being generated.
pub struct CodegenState {
    slots: Vec<Variable>,
}

impl View for CodegenState {
    type V = Slots;

    closed spec fn view(&self) -> Slots {
        self.slots@
    }
}

impl CodegenState {
    /// Every slot has a number of 32 bits, and no variable has two slots.
    pub open spec fn wf(&self) -> bool {
        self@.len() <= u32::MAX && distinct(self@)
    }

    /// The empty slot table.
    pub fn new() -> (r: Self)
        ensures
            r@ == Slots::empty(),
            r.wf(),
    {
        CodegenState { slots: Vec::new() }
    }

    /// The number of slots given out.
    pub fn slot_count(&self) -> (n: u32)
        requires
            self.wf(),
        ensures
            n == self@.len(),
    {
        self.slots.len() as u32
    }

    fn find(&self, v: Variable) -> (r: Option<usize>)
        ensures
            match r {
                Some(i) => slot_of(self@, v, 0) == Some(i as nat) && i < self@.len() && self@[i as int]
                    == v,
                None => slot_of(self@, v, 0).is_none() && forall|j: int|
                    0 <= j < self@.len() ==> self@[j] != v,
            },
    {
        let mut i: usize = 0;
        while i < self.slots.len()
            invariant
                i <= self.slots.len(),
                slot_of(self@, v, 0) == slot_of(self@, v, i as nat),
                forall|j: int| 0 <= j < i ==> self@[j] != v,
            decreases self.slots.len() - i,
        {
            if self.slots[i] == v {
                return Some(i);
            }
            i += 1;
        }
        None
    }

    /// Gives the next slot to the parameter `param`.
    pub fn register_param(&mut self, param: &LocalIdent) -> (r: Result<(), Error>)
        requires
            old(self).wf(),
        ensures
            final(self).wf(),
            match r {
                Ok(()) => slot_of(old(self)@, Variable::Local(param.id), 0).is_none() && old(
                    self,
                )@.len() < u32::MAX && final(self)@ == old(self)@.push(Variable::Local(param.id)),
                Err(e) => final(self)@ == old(self)@ && if slot_of(
                    old(self)@,
                    Variable::Local(param.id),
                    0,
                ).is_some() {
                    e == Error::DuplicateParameter(*param)
                } else {
                    e == Error::TooManySlots && old(self)@.len() >= u32::MAX
                },
            },
    {
        let v = Variable::Local(param.id);
        match self.find(v) {
            Some(_) => Err(Error::DuplicateParameter(*param)),
            None => {
                if self.slots.len() >= 0xffff_ffff {
                    return Err(Error::TooManySlots);
                }
                self.slots.push(v);
                Ok(())
            },
        }
    }

    fn resolve(&mut self, v: Variable) -> (r: Result<u32, Error>)
        requires
            old(self).wf(),
        ensures
            final(self).wf(),
            match r {
                Ok(slot) => resolved(old(self)@, v) == Ok::<(Slots, u32), Error>((final(self)@, slot)),
                Err(e) => resolved(old(self)@, v) == Err::<(Slots, u32), Error>(e),
            },
    {
        match self.find(v) {
            Some(i) => Ok(i as u32),
            None => {
                if self.slots.len() >= 0xffff_ffff {
                    return Err(Error::TooManySlots);
                }
                let id = self.slots.len() as u32;
                self.slots.push(v);
                Ok(id)
            },
        }
    }

    /// The slot of the local `local`.
    pub fn resolve_local(&mut self, local: &LocalIdent) -> (r: Result<u32, Error>)
        requires
            old(self).wf(),
        ensures
            final(self).wf(),
            match r {
                Ok(slot) => resolved(old(self)@, Variable::Local(local.id)) == Ok::<
                    (Slots, u32),
                    Error,
                >((final(self)@, slot)),
                Err(e) => resolved(old(self)@, Variable::Local(local.id)) == Err::<
                    (Slots, u32),
                    Error,
                >(e),
            },
    {
        self.resolve(Variable::Local(local.id))
    }

    /// The slot of the temporary `single_use`.
    pub fn resolve_single_use(&mut self, single_use: &simple::SingleUseIdent) -> (r: Result<
        u32,
        Error,
    >)
        requires
            old(self).wf(),
        ensures
            final(self).wf(),
            match r {
                Ok(slot) => resolved(old(self)@, Variable::SingleUse(single_use.id)) == Ok::<
                    (Slots, u32),
                    Error,
                >((final(self)@, slot)),
                Err(e) => resolved(old(self)@, Variable::SingleUse(single_use.id)) == Err::<
                    (Slots, u32),
                    Error,
                >(e),
            },
    {
        self.resolve(Variable::SingleUse(single_use.id))
    }

    /// The slot of the variable that `id` names.
    pub fn resolve_simple_ident(&mut self, id: &simple::Ident) -> (r: Result<u32, Error>)
        requires
            old(self).wf(),
        ensures
            final(self).wf(),
            match r {
                Ok(slot) => resolved(old(self)@, variable_of(*id)) == Ok::<(Slots, u32), Error>(
                    (final(self)@, slot),
                ),
                Err(e) => resolved(old(self)@, variable_of(*id)) == Err::<(Slots, u32), Error>(e),
            },
    {
        match id {
            simple::Ident::Local(id) => self.resolve_local(&id.v),
            simple::Ident::SingleUse(id) => self.resolve_single_use(&id.v),
        }
    }
}

} // verus!
