use vstd::prelude::*;
use vstd::utf8::encode_utf8;
use crate::codegen::fragment::duplicate_vec;
use crate::codegen::types::{BlockType, Instruction, ValType, WasmBytes};
use crate::linker::encoder::{
    add_code, add_export, add_function, add_function_type, body_bytes, code_section_entries,
    codes_bytes, emit_block, emit_br, emit_call, emit_else, emit_end, emit_i32_add,
    emit_i32_const, emit_i32_eq, emit_i32_ge_u, emit_i32_gt_u, emit_i32_le_u, emit_i32_lt_u,
    emit_if, emit_local_get, emit_local_set, emit_loop, emit_return, export_section_entries,
    exports_bytes, finish_module, function_instructions, function_locals,
    function_section_entries, module_encoding, new_code_section, new_export_section,
    new_function, new_function_section, new_type_section, type_section_entries, types_bytes,
    Body, Export, Signature, SECTION_LIMIT,
};
use crate::linker::error::Error;
use crate::linker::linked;

verus! {

/// A type of the module's type table.
#[derive(Debug, PartialEq, Eq, Hash)]
pub enum TypeKind {
    Func(Vec<ValType>, Vec<ValType>),
}

impl View for TypeKind {
    type V = Signature;

    open spec fn view(&self) -> Signature {
        match self {
            TypeKind::Func(params, results) => (params@, results@),
        }
    }
}

/// The function that a top-level statement declares.
pub open spec fn fun_of(s: linked::TopLevelStmtView) -> linked::FunDeclView {
    match s {
        linked::TopLevelStmtView::FunDecl(f) => f.v,
    }
}

/// The type of a function: its parameters, and one number as result.
pub open spec fn signature_of(f: linked::FunDeclView) -> Signature {
    (f.implementation.params, seq![ValType::I32])
}

/// The number of locals that a function declares: its slots without the parameters.
pub open spec fn locals_of(f: linked::FunImplView) -> u32 {
    if f.slots >= f.params.len() {
        (f.slots - f.params.len()) as u32
    } else {
        0
    }
}

/// The code of a function: its locals, its instructions, and the end of the body.
pub open spec fn body_of(f: linked::FunImplView) -> Body {
    (locals_of(f), Seq::new(f.body.len(), |i: int| f.body[i].instr).push(Instruction::End))
}

/// The position of the first `sig` at or after `from`.
pub open spec fn type_index(types: Seq<Signature>, sig: Signature, from: nat) -> Option<nat>
    decreases types.len() - from,
{
    if from >= types.len() {
        None
    } else if types[from as int] == sig {
        Some(from)
    } else {
        type_index(types, sig, from + 1)
    }
}

/// What goes into the four sections of a module.
pub struct Plan {
    pub types: Seq<Signature>,
    pub functions: Seq<u32>,
    pub exports: Seq<Export>,
    pub codes: Seq<Body>,
}

/// The plan of a module without functions.
pub open spec fn empty_plan() -> Plan {
    Plan { types: Seq::empty(), functions: Seq::empty(), exports: Seq::empty(), codes: Seq::empty() }
}

/// `plan` with function `k`: its type goes into the type table unless the
/// table holds it, its type index and its code are added, and its export if
/// it is exported.
pub open spec fn with_function(plan: Plan, f: linked::FunDeclView, k: nat) -> Plan {
    let sig = signature_of(f);
    let types = match type_index(plan.types, sig, 0) {
        Some(_) => plan.types,
        None => plan.types.push(sig),
    };
    let ix = match type_index(plan.types, sig, 0) {
        Some(j) => j as u32,
        None => plan.types.len() as u32,
    };
    let exports = if f.export {
        plan.exports.push((f.name.v, k as u32))
    } else {
        plan.exports
    };
    Plan {
        types,
        functions: plan.functions.push(ix),
        exports,
        codes: plan.codes.push(body_of(f.implementation)),
    }
}

/// `plan` with the functions of `funs` from position `k` on.
pub open spec fn planned(funs: Seq<linked::TopLevelStmtView>, k: nat, plan: Plan) -> Plan
    decreases funs.len() - k,
{
    if k >= funs.len() {
        plan
    } else {
        planned(funs, k + 1, with_function(plan, fun_of(funs[k as int]), k))
    }
}

/// The sections of the module `m`: one type for each distinct signature, and
/// for each function its type index and its code; exports for the exported
/// functions only.
pub open spec fn module_plan(m: linked::ModuleView) -> Plan {
    planned(m.statements, 0, empty_plan())
}

/// The bytes that the types of the first `n` functions take at most, each counted.
pub open spec fn all_types_bytes(funs: Seq<linked::TopLevelStmtView>, n: nat) -> nat
    decreases n,
{
    if n == 0 || n > funs.len() {
        0
    } else {
        all_types_bytes(funs, (n - 1) as nat) + 12 + fun_of(funs[n - 1]).implementation.params.len()
    }
}

/// The bytes that the exports among the first `n` functions take at most.
pub open spec fn all_exports_bytes(funs: Seq<linked::TopLevelStmtView>, n: nat) -> nat
    decreases n,
{
    if n == 0 || n > funs.len() {
        0
    } else if fun_of(funs[n - 1]).export {
        all_exports_bytes(funs, (n - 1) as nat) + 11 + encode_utf8(fun_of(funs[n - 1]).name.v).len()
    } else {
        all_exports_bytes(funs, (n - 1) as nat)
    }
}

/// The bytes that the code of the first `n` functions takes at most.
pub open spec fn all_codes_bytes(funs: Seq<linked::TopLevelStmtView>, n: nat) -> nat
    decreases n,
{
    if n == 0 || n > funs.len() {
        0
    } else {
        all_codes_bytes(funs, (n - 1) as nat) + 5 + body_bytes(
            body_of(fun_of(funs[n - 1]).implementation),
        )
    }
}

/// The module is small enough for the binary format, where the size of a
/// section is a number of 32 bits: the bounds on the bytes of the type, the
/// function, the export and the code section all stay below the limit.
pub open spec fn fits(m: linked::ModuleView) -> bool {
    let funs = m.statements;
    &&& 5 * funs.len() <= SECTION_LIMIT
    &&& all_types_bytes(funs, funs.len()) <= SECTION_LIMIT
    &&& all_exports_bytes(funs, funs.len()) <= SECTION_LIMIT
    &&& all_codes_bytes(funs, funs.len()) <= SECTION_LIMIT
}

/// `min(total + more, SECTION_LIMIT + 1)`, without overflow.
fn add_capped(total: u64, more: usize) -> (r: u64)
    requires
        total <= SECTION_LIMIT + 1,
    ensures
        r == if total + more > SECTION_LIMIT {
            (SECTION_LIMIT + 1) as u64
        } else {
            (total + more) as u64
        },
{
    if more as u64 > SECTION_LIMIT || total > SECTION_LIMIT - more as u64 {
        SECTION_LIMIT + 1
    } else {
        total + more as u64
    }
}

/// `min(6 * n, SECTION_LIMIT + 1)`, without overflow.
fn six_times_capped(n: usize) -> (r: usize)
    ensures
        r == if 6 * n > SECTION_LIMIT {
            (SECTION_LIMIT + 1) as usize
        } else {
            (6 * n) as usize
        },
{
    if n > 0x2aaa_aaa9 {
        0xffff_fffb
    } else {
        6 * n
    }
}

fn fun_at(module: &linked::Module, i: usize) -> (f: &linked::FunDecl)
    requires
        i < module.statements@.len(),
    ensures
        f@ == fun_of(module@.statements[i as int]),
{
    match &module.statements[i] {
        linked::TopLevelStmt::FunDecl(f) => &f.v,
    }
}

/// True when the module is small enough for the binary format.
pub fn check_size(module: &linked::Module) -> (b: bool)
    ensures
        b == fits(module@),
{
    let ghost funs = module@.statements;
    let n = module.statements.len();
    let mut types: u64 = 0;
    let mut exports: u64 = 0;
    let mut codes: u64 = 0;
    let mut i: usize = 0;
    while i < n
        invariant
            i <= n,
            n == module.statements@.len(),
            funs == module@.statements,
            types == if all_types_bytes(funs, i as nat) > SECTION_LIMIT {
                (SECTION_LIMIT + 1) as u64
            } else {
                all_types_bytes(funs, i as nat) as u64
            },
            exports == if all_exports_bytes(funs, i as nat) > SECTION_LIMIT {
                (SECTION_LIMIT + 1) as u64
            } else {
                all_exports_bytes(funs, i as nat) as u64
            },
            codes == if all_codes_bytes(funs, i as nat) > SECTION_LIMIT {
                (SECTION_LIMIT + 1) as u64
            } else {
                all_codes_bytes(funs, i as nat) as u64
            },
        decreases n - i,
    {
        let f = fun_at(module, i);
        types = add_capped(add_capped(types, 12), f.implementation.params.len());
        if f.export {
            let name = f.name.v.0.as_str();
            let len = name.as_bytes().len();
            assert(len == encode_utf8(fun_of(funs[i as int]).name.v).len());
            exports = add_capped(add_capped(exports, 11), len);
        }
        let ghost body = body_of(f@.implementation);
        assert(body.1.len() == f.implementation.body@.len() + 1);
        codes = add_capped(
            add_capped(add_capped(codes, 18), six_times_capped(f.implementation.body.len())),
            0,
        );
        i += 1;
    }
    n <= 0x3333_3332 && types <= SECTION_LIMIT && exports <= SECTION_LIMIT && codes
        <= SECTION_LIMIT
}

/// The binary module of `module`, if it is small enough for the binary
/// format. The type section holds each signature once; the function and the
/// code section hold one entry for each function, in order; the export
/// section holds the exported functions.
pub fn mk_wasm(module: &linked::Module) -> (r: Result<WasmBytes, Error>)
    ensures
        match r {
            Ok(w) => fits(module@) && w.bytes@ == module_encoding(
                module_plan(module@).types,
                module_plan(module@).functions,
                module_plan(module@).exports,
                module_plan(module@).codes,
            ),
            Err(e) => !fits(module@) && e == Error::ModuleTooLarge,
        },
{
    if !check_size(module) {
        return Err(Error::ModuleTooLarge);
    }
    let ghost funs = module@.statements;
    let mut env = MkWasmEnv::new();
    let n = module.statements.len();
    let mut ix: usize = 0;
    while ix < n
        invariant
            ix <= n,
            n == module.statements@.len(),
            funs == module@.statements,
            fits(module@),
            env.wf(),
            env.plan().functions.len() == ix,
            env.plan().exports.len() <= ix,
            types_bytes(env.plan().types) <= all_types_bytes(funs, ix as nat),
            exports_bytes(env.plan().exports) <= all_exports_bytes(funs, ix as nat),
            codes_bytes(env.plan().codes) <= all_codes_bytes(funs, ix as nat),
            all_types_bytes(funs, ix as nat) <= SECTION_LIMIT,
            all_exports_bytes(funs, ix as nat) <= SECTION_LIMIT,
            all_codes_bytes(funs, ix as nat) <= SECTION_LIMIT,
            module_plan(module@) == planned(funs, ix as nat, env.plan()),
        decreases n - ix,
    {
        proof {
            lemma_bounds_grow(funs, (ix + 1) as nat, n as nat);
        }
        let fun = fun_at(module, ix);
        let ghost before = env.plan();
        let ghost sig = signature_of(fun@);
        // Encode the function type
        let mut results: Vec<ValType> = Vec::new();
        results.push(ValType::I32);
        assert(results@ =~= seq![ValType::I32]);
        let params = duplicate_vec(&fun.implementation.params);
        let type_ix = env.get_type_func_ix(params, results);
        assert(env.plan().types.len() > before.types.len() ==> env.plan().types.drop_last()
            =~= before.types);
        // Export if necessary
        if fun.export {
            env.add_export(fun.name.v.0.as_str(), ix as u32);
            assert(env.plan().exports.drop_last() =~= before.exports);
        }
        // Encode the function body
        let ls = locals(&fun.implementation);
        env.add_func(type_ix, ls, &fun.implementation.body);
        assert(env.plan().codes.drop_last() =~= before.codes);
        assert(env.plan() == with_function(before, fun@, ix as nat));
        ix += 1;
    }
    // Build the module
    let wat = finish_module(
        &env.type_section,
        &env.function_section,
        &env.export_section,
        &env.code_section,
    );
    Ok(WasmBytes { bytes: wat })
}

/// The bounds on the bytes only grow with the number of functions.
proof fn lemma_bounds_grow(funs: Seq<linked::TopLevelStmtView>, k: nat, n: nat)
    requires
        k <= n <= funs.len(),
    ensures
        all_types_bytes(funs, k) <= all_types_bytes(funs, n),
        all_exports_bytes(funs, k) <= all_exports_bytes(funs, n),
        all_codes_bytes(funs, k) <= all_codes_bytes(funs, n),
    decreases n - k,
{
    if k < n {
        lemma_bounds_grow(funs, k, (n - 1) as nat);
    }
}

/// The number of locals that the code of `impl_` declares.
fn locals(impl_: &linked::FunImpl) -> (r: u32)
    ensures
        r == locals_of(impl_@),
{
    if impl_.params.len() <= impl_.slots as usize {
        impl_.slots - impl_.params.len() as u32
    } else {
        0
    }
}

/// The sections of the module that is being encoded, with the type table
/// that tells which types the type section holds.
struct MkWasmEnv {
    type_map: Vec<TypeKind>,
    type_section: wasm_encoder::TypeSection,
    function_section: wasm_encoder::FunctionSection,
    export_section: wasm_encoder::ExportSection,
    code_section: wasm_encoder::CodeSection,
}

impl MkWasmEnv {
    /// What the sections hold.
    closed spec fn plan(&self) -> Plan {
        Plan {
            types: type_section_entries(self.type_section),
            functions: function_section_entries(self.function_section),
            exports: export_section_entries(self.export_section),
            codes: code_section_entries(self.code_section),
        }
    }

    /// The type table mirrors the type section, and each section has room for
    /// one entry more.
    closed spec fn wf(&self) -> bool {
        &&& self.type_map@.len() == type_section_entries(self.type_section).len()
        &&& forall|i: int|
            0 <= i < self.type_map@.len() ==> (#[trigger] self.type_map@[i])@
                == type_section_entries(self.type_section)[i]
        &&& type_section_entries(self.type_section).len() <= function_section_entries(
            self.function_section,
        ).len()
        &&& function_section_entries(self.function_section).len() == code_section_entries(
            self.code_section,
        ).len()
        &&& 5 * function_section_entries(self.function_section).len() <= SECTION_LIMIT
    }

    fn new() -> (r: MkWasmEnv)
        ensures
            r.wf(),
            r.plan() == empty_plan(),
    {
        MkWasmEnv {
            type_map: Vec::new(),
            type_section: new_type_section(),
            function_section: new_function_section(),
            export_section: new_export_section(),
            code_section: new_code_section(),
        }
    }

    fn find_type(&self, ty: &TypeKind) -> (r: Option<usize>)
        requires
            self.wf(),
        ensures
            match r {
                Some(i) => type_index(self.plan().types, ty@, 0) == Some(i as nat) && i
                    < self.plan().types.len(),
                None => type_index(self.plan().types, ty@, 0).is_none(),
            },
    {
        let mut i: usize = 0;
        while i < self.type_map.len()
            invariant
                i <= self.type_map.len(),
                self.wf(),
                type_index(self.plan().types, ty@, 0) == type_index(
                    self.plan().types,
                    ty@,
                    i as nat,
                ),
            decreases self.type_map.len() - i,
        {
            if same_type(&self.type_map[i], ty) {
                return Some(i);
            }
            i += 1;
        }
        None
    }

    /// The index of `ty` in the type table: the one it has, else a new one.
    fn get_type_ix(&mut self, ty: TypeKind) -> (r: u32)
        requires
            old(self).wf(),
            old(self).plan().types.len() < 0x3333_3333,
            ty@.0.len() <= u32::MAX,
            ty@.1.len() <= u32::MAX,
        ensures
            final(self).plan().functions == old(self).plan().functions,
            final(self).plan().exports == old(self).plan().exports,
            final(self).plan().codes == old(self).plan().codes,
            final(self).type_map@.len() == final(self).plan().types.len(),
            forall|i: int|
                0 <= i < final(self).type_map@.len() ==> (#[trigger] final(self).type_map@[i])@
                    == final(self).plan().types[i],
            match type_index(old(self).plan().types, ty@, 0) {
                Some(j) => r == j && final(self).plan().types == old(self).plan().types,
                None => r == old(self).plan().types.len() && final(self).plan().types == old(
                    self,
                ).plan().types.push(ty@),
            },
    {
        match self.find_type(&ty) {
            Some(existing) => existing as u32,
            None => {
                let ix = self.type_map.len() as u32;
                match &ty {
                    TypeKind::Func(params, results) => {
                        add_function_type(&mut self.type_section, params, results);
                    },
                }
                self.type_map.push(ty);
                ix
            },
        }
    }

    /// The index of the function type with these parameters and results.
    fn get_type_func_ix(&mut self, params: Vec<ValType>, results: Vec<ValType>) -> (r: u32)
        requires
            old(self).wf(),
            old(self).plan().types.len() < 0x3333_3333,
            params@.len() <= u32::MAX,
            results@.len() <= u32::MAX,
        ensures
            final(self).plan().functions == old(self).plan().functions,
            final(self).plan().exports == old(self).plan().exports,
            final(self).plan().codes == old(self).plan().codes,
            final(self).type_map@.len() == final(self).plan().types.len(),
            forall|i: int|
                0 <= i < final(self).type_map@.len() ==> (#[trigger] final(self).type_map@[i])@
                    == final(self).plan().types[i],
            match type_index(old(self).plan().types, (params@, results@), 0) {
                Some(j) => r == j && final(self).plan().types == old(self).plan().types,
                None => r == old(self).plan().types.len() && final(self).plan().types == old(
                    self,
                ).plan().types.push((params@, results@)),
            },
    {
        let ty = TypeKind::Func(params, results);
        self.get_type_ix(ty)
    }

    /// Adds a function of type `type_ix` with `locals` locals and the
    /// instructions of `body`, closed by the end of the body.
    fn add_func(
        &mut self,
        type_ix: u32,
        locals: u32,
        body: &Vec<linked::Instr>,
    )
        requires
            old(self).type_map@.len() == old(self).plan().types.len(),
            forall|i: int|
                0 <= i < old(self).type_map@.len() ==> (#[trigger] old(self).type_map@[i])@ == old(
                    self,
                ).plan().types[i],
            old(self).plan().functions.len() == old(self).plan().codes.len(),
            old(self).plan().types.len() <= old(self).plan().functions.len() + 1,
            5 * (old(self).plan().functions.len() + 1) <= SECTION_LIMIT,
            7 + 6 * (body@.len() + 1) <= u32::MAX,
        ensures
            final(self).wf(),
            final(self).plan() == (Plan {
                types: old(self).plan().types,
                functions: old(self).plan().functions.push(type_ix),
                exports: old(self).plan().exports,
                codes: old(self).plan().codes.push(
                    (locals, Seq::new(body@.len(), |i: int| body@[i].instr).push(Instruction::End)),
                ),
            }),
    {
        let mut f = new_function(locals);
        let mut k: usize = 0;
        while k < body.len()
            invariant
                k <= body.len(),
                function_locals(f) == locals,
                function_instructions(f) == Seq::new(k as nat, |i: int| body@[i].instr),
            decreases body.len() - k,
        {
            let ghost before = function_instructions(f);
            emit(&mut f, &body[k].instr);
            assert(function_instructions(f) =~= Seq::new((k + 1) as nat, |i: int| body@[i].instr));
            k += 1;
        }
        emit_end(&mut f);
        add_function(&mut self.function_section, type_ix);
        add_code(&mut self.code_section, &f);
    }

    /// Exports the function `index` under `name`.
    fn add_export(&mut self, name: &str, index: u32)
        requires
            old(self).plan().exports.len() < u32::MAX,
            encode_utf8(name@).len() <= u32::MAX,
        ensures
            final(self).type_map == old(self).type_map,
            final(self).plan() == (Plan {
                types: old(self).plan().types,
                functions: old(self).plan().functions,
                exports: old(self).plan().exports.push((name@, index)),
                codes: old(self).plan().codes,
            }),
    {
        add_export(&mut self.export_section, name, index);
    }
}

/// True when both types are the same.
fn same_type(a: &TypeKind, b: &TypeKind) -> (r: bool)
    ensures
        r == (a@ == b@),
{
    match (a, b) {
        (TypeKind::Func(p1, r1), TypeKind::Func(p2, r2)) => same_types(p1, p2) && same_types(
            r1,
            r2,
        ),
    }
}

fn same_types(a: &Vec<ValType>, b: &Vec<ValType>) -> (r: bool)
    ensures
        r == (a@ == b@),
{
    if a.len() != b.len() {
        return false;
    }
    let mut i: usize = 0;
    while i < a.len()
        invariant
            i <= a.len(),
            a@.len() == b@.len(),
            forall|j: int| 0 <= j < i ==> a@[j] == b@[j],
        decreases a.len() - i,
    {
        if a[i] != b[i] {
            return false;
        }
        i += 1;
    }
    assert(a@ =~= b@);
    true
}

/// Adds `instr` to the body `f`.
fn emit(f: &mut wasm_encoder::Function, instr: &Instruction)
    ensures
        function_locals(*final(f)) == function_locals(*old(f)),
        function_instructions(*final(f)) == function_instructions(*old(f)).push(*instr),
{
    match instr {
        Instruction::I32Const(v) => emit_i32_const(f, *v),
        Instruction::LocalGet(i) => emit_local_get(f, *i),
        Instruction::LocalSet(i) => emit_local_set(f, *i),
        Instruction::Br(i) => emit_br(f, *i),
        Instruction::Call(i) => emit_call(f, *i),
        Instruction::If(BlockType::Empty) => emit_if(f),
        Instruction::Block(BlockType::Empty) => emit_block(f),
        Instruction::Loop(BlockType::Empty) => emit_loop(f),
        Instruction::Return => emit_return(f),
        Instruction::Else => emit_else(f),
        Instruction::End => emit_end(f),
        Instruction::I32GtU => emit_i32_gt_u(f),
        Instruction::I32GeU => emit_i32_ge_u(f),
        Instruction::I32LtU => emit_i32_lt_u(f),
        Instruction::I32LeU => emit_i32_le_u(f),
        Instruction::I32Eq => emit_i32_eq(f),
        Instruction::I32Add => emit_i32_add(f),
    }
}

} // verus!
