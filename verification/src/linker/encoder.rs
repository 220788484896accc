use vstd::prelude::*;
use vstd::utf8::encode_utf8;
use crate::codegen::types::{BlockType, Instruction, ValType};

verus! {

/// The type of a function: the types of its parameters and of its results.
pub type Signature = (Seq<ValType>, Seq<ValType>);

/// An export of a function: its name and its index.
pub type Export = (Seq<char>, u32);

/// The code of a function: the number of its locals and its instructions.
pub type Body = (u32, Seq<Instruction>);

/// The type section under construction of `wasm_encoder`.
#[verifier::external_type_specification]
#[verifier::external_body]
pub struct ExTypeSection(wasm_encoder::TypeSection);

/// The function section under construction of `wasm_encoder`.
#[verifier::external_type_specification]
#[verifier::external_body]
pub struct ExFunctionSection(wasm_encoder::FunctionSection);

/// The export section under construction of `wasm_encoder`.
#[verifier::external_type_specification]
#[verifier::external_body]
pub struct ExExportSection(wasm_encoder::ExportSection);

/// The code section under construction of `wasm_encoder`.
#[verifier::external_type_specification]
#[verifier::external_body]
pub struct ExCodeSection(wasm_encoder::CodeSection);

/// The body of one function under construction of `wasm_encoder`.
#[verifier::external_type_specification]
#[verifier::external_body]
pub struct ExFunction(wasm_encoder::Function);

/// The function types that were added to a type section, in order.
pub uninterp spec fn type_section_entries(s: wasm_encoder::TypeSection) -> Seq<Signature>;

/// The type indices that were added to a function section, in order.
pub uninterp spec fn function_section_entries(s: wasm_encoder::FunctionSection) -> Seq<u32>;

/// The exports that were added to an export section, in order.
pub uninterp spec fn export_section_entries(s: wasm_encoder::ExportSection) -> Seq<Export>;

/// The function bodies that were added to a code section, in order.
pub uninterp spec fn code_section_entries(s: wasm_encoder::CodeSection) -> Seq<Body>;

/// The number of locals that a function body was made with.
pub uninterp spec fn function_locals(f: wasm_encoder::Function) -> u32;

/// The instructions that were added to a function body, in order.
pub uninterp spec fn function_instructions(f: wasm_encoder::Function) -> Seq<Instruction>;

/// The bytes of the module that `wasm_encoder` makes of a type section, a
/// function section, an export section and a code section with these entries.
pub uninterp spec fn module_encoding(
    types: Seq<Signature>,
    functions: Seq<u32>,
    exports: Seq<Export>,
    codes: Seq<Body>,
) -> Seq<u8>;

/// The most bytes that the entries of a section may take: with the count in
/// front, which takes up to five bytes, the section's size still fits in 32 bits.
pub const SECTION_LIMIT: u64 = 0xffff_fffa;

/// An upper bound of the bytes that `wasm_encoder` writes for these function
/// types: a marker, two lengths of up to five bytes, and a byte for each type.
pub open spec fn types_bytes(entries: Seq<Signature>) -> nat
    decreases entries.len(),
{
    if entries.len() == 0 {
        0
    } else {
        types_bytes(entries.drop_last()) + 11 + entries.last().0.len() + entries.last().1.len()
    }
}

/// An upper bound of the bytes that `wasm_encoder` writes for these exports:
/// the name with its length, the kind, and the index.
pub open spec fn exports_bytes(entries: Seq<Export>) -> nat
    decreases entries.len(),
{
    if entries.len() == 0 {
        0
    } else {
        exports_bytes(entries.drop_last()) + 11 + encode_utf8(entries.last().0).len()
    }
}

/// An upper bound of the bytes that `wasm_encoder` writes for a function body:
/// the declaration of the locals and up to six bytes for each instruction.
pub open spec fn body_bytes(body: Body) -> nat {
    7 + 6 * body.1.len()
}

/// An upper bound of the bytes that `wasm_encoder` writes for these function
/// bodies, each with its size in front.
pub open spec fn codes_bytes(entries: Seq<Body>) -> nat
    decreases entries.len(),
{
    if entries.len() == 0 {
        0
    } else {
        codes_bytes(entries.drop_last()) + 5 + body_bytes(entries.last())
    }
}

/// `wasm_encoder::TypeSection::new`: a type section without entries.
#[verifier::external_body]
pub(crate) fn new_type_section() -> (section: wasm_encoder::TypeSection)
    ensures
        type_section_entries(section) == Seq::<Signature>::empty(),
{
    wasm_encoder::TypeSection::new()
}

/// `wasm_encoder::TypeSection::ty` with `CoreTypeEncoder::function`: adds one
/// function type behind those that the section holds. The count of the
/// section and the two lengths are written as numbers of 32 bits.
#[verifier::external_body]
pub(crate) fn add_function_type(
    section: &mut wasm_encoder::TypeSection,
    params: &Vec<ValType>,
    results: &Vec<ValType>,
)
    requires
        type_section_entries(*old(section)).len() < u32::MAX,
        params@.len() <= u32::MAX,
        results@.len() <= u32::MAX,
    ensures
        type_section_entries(*final(section)) == type_section_entries(*old(section)).push(
            (params@, results@),
        ),
{
    let ps = params.iter().map(|t| match t { ValType::I32 => wasm_encoder::ValType::I32 });
    let rs = results.iter().map(|t| match t { ValType::I32 => wasm_encoder::ValType::I32 });
    section.ty().function(ps, rs);
}

/// `wasm_encoder::FunctionSection::new`: a function section without entries.
#[verifier::external_body]
pub(crate) fn new_function_section() -> (section: wasm_encoder::FunctionSection)
    ensures
        function_section_entries(section) == Seq::<u32>::empty(),
{
    wasm_encoder::FunctionSection::new()
}

/// `wasm_encoder::FunctionSection::function`: adds the type index of one more function.
#[verifier::external_body]
pub(crate) fn add_function(section: &mut wasm_encoder::FunctionSection, type_index: u32)
    requires
        function_section_entries(*old(section)).len() < u32::MAX,
    ensures
        function_section_entries(*final(section)) == function_section_entries(*old(section)).push(
            type_index,
        ),
{
    section.function(type_index);
}

/// `wasm_encoder::ExportSection::new`: an export section without entries.
#[verifier::external_body]
pub(crate) fn new_export_section() -> (section: wasm_encoder::ExportSection)
    ensures
        export_section_entries(section) == Seq::<Export>::empty(),
{
    wasm_encoder::ExportSection::new()
}

/// `wasm_encoder::ExportSection::export` with `ExportKind::Func`: adds the
/// export of the function `index` under `name`. The length of the name in
/// bytes is written as a number of 32 bits.
#[verifier::external_body]
pub(crate) fn add_export(section: &mut wasm_encoder::ExportSection, name: &str, index: u32)
    requires
        export_section_entries(*old(section)).len() < u32::MAX,
        encode_utf8(name@).len() <= u32::MAX,
    ensures
        export_section_entries(*final(section)) == export_section_entries(*old(section)).push(
            (name@, index),
        ),
{
    section.export(name, wasm_encoder::ExportKind::Func, index);
}

/// `wasm_encoder::CodeSection::new`: a code section without entries.
#[verifier::external_body]
pub(crate) fn new_code_section() -> (section: wasm_encoder::CodeSection)
    ensures
        code_section_entries(section) == Seq::<Body>::empty(),
{
    wasm_encoder::CodeSection::new()
}

/// `wasm_encoder::CodeSection::function`: adds one function body. The size
/// of the body in bytes is written as a number of 32 bits.
#[verifier::external_body]
pub(crate) fn add_code(section: &mut wasm_encoder::CodeSection, body: &wasm_encoder::Function)
    requires
        code_section_entries(*old(section)).len() < u32::MAX,
        body_bytes((function_locals(*body), function_instructions(*body))) <= u32::MAX,
    ensures
        code_section_entries(*final(section)) == code_section_entries(*old(section)).push(
            (function_locals(*body), function_instructions(*body)),
        ),
{
    section.function(body);
}

/// `wasm_encoder::Function::new`: a function body with `locals` locals of 32
/// bits, declared as one run, and no instruction.
#[verifier::external_body]
pub(crate) fn new_function(locals: u32) -> (body: wasm_encoder::Function)
    ensures
        function_locals(body) == locals,
        function_instructions(body) == Seq::<Instruction>::empty(),
{
    wasm_encoder::Function::new([(locals, wasm_encoder::ValType::I32)])
}

/// `wasm_encoder::InstructionSink::i32_const` on the sink of the body: adds the
/// instruction that pushes the constant `value`.
#[verifier::external_body]
pub(crate) fn emit_i32_const(body: &mut wasm_encoder::Function, value: i32)
    ensures
        function_locals(*final(body)) == function_locals(*old(body)),
        function_instructions(*final(body)) == function_instructions(*old(body)).push(
            Instruction::I32Const(value),
        ),
{
    body.instructions().i32_const(value);
}

/// `wasm_encoder::InstructionSink::local_get` on the sink of the body: adds the
/// instruction that pushes the value of the slot.
#[verifier::external_body]
pub(crate) fn emit_local_get(body: &mut wasm_encoder::Function, slot: u32)
    ensures
        function_locals(*final(body)) == function_locals(*old(body)),
        function_instructions(*final(body)) == function_instructions(*old(body)).push(
            Instruction::LocalGet(slot),
        ),
{
    body.instructions().local_get(slot);
}

/// `wasm_encoder::InstructionSink::local_set` on the sink of the body: adds the
/// instruction that pops a value into the slot.
#[verifier::external_body]
pub(crate) fn emit_local_set(body: &mut wasm_encoder::Function, slot: u32)
    ensures
        function_locals(*final(body)) == function_locals(*old(body)),
        function_instructions(*final(body)) == function_instructions(*old(body)).push(
            Instruction::LocalSet(slot),
        ),
{
    body.instructions().local_set(slot);
}

/// `wasm_encoder::InstructionSink::br` on the sink of the body: adds the
/// instruction that branches to the block at `depth`.
#[verifier::external_body]
pub(crate) fn emit_br(body: &mut wasm_encoder::Function, depth: u32)
    ensures
        function_locals(*final(body)) == function_locals(*old(body)),
        function_instructions(*final(body)) == function_instructions(*old(body)).push(
            Instruction::Br(depth),
        ),
{
    body.instructions().br(depth);
}

/// `wasm_encoder::InstructionSink::call` on the sink of the body: adds the
/// instruction that calls the function with this index.
#[verifier::external_body]
pub(crate) fn emit_call(body: &mut wasm_encoder::Function, function: u32)
    ensures
        function_locals(*final(body)) == function_locals(*old(body)),
        function_instructions(*final(body)) == function_instructions(*old(body)).push(
            Instruction::Call(function),
        ),
{
    body.instructions().call(function);
}

/// `wasm_encoder::InstructionSink::return_` on the sink of the body: adds the
/// instruction that returns from the function.
#[verifier::external_body]
pub(crate) fn emit_return(body: &mut wasm_encoder::Function)
    ensures
        function_locals(*final(body)) == function_locals(*old(body)),
        function_instructions(*final(body)) == function_instructions(*old(body)).push(
            Instruction::Return,
        ),
{
    body.instructions().return_();
}

/// `wasm_encoder::InstructionSink::else_` on the sink of the body: adds the
/// instruction that starts the other branch of a conditional.
#[verifier::external_body]
pub(crate) fn emit_else(body: &mut wasm_encoder::Function)
    ensures
        function_locals(*final(body)) == function_locals(*old(body)),
        function_instructions(*final(body)) == function_instructions(*old(body)).push(
            Instruction::Else,
        ),
{
    body.instructions().else_();
}

/// `wasm_encoder::InstructionSink::end` on the sink of the body: adds the
/// instruction that closes a block or the body.
#[verifier::external_body]
pub(crate) fn emit_end(body: &mut wasm_encoder::Function)
    ensures
        function_locals(*final(body)) == function_locals(*old(body)),
        function_instructions(*final(body)) == function_instructions(*old(body)).push(
            Instruction::End,
        ),
{
    body.instructions().end();
}

/// `wasm_encoder::InstructionSink::i32_gt_u` on the sink of the body: adds the
/// instruction that compares two numbers, unsigned: greater.
#[verifier::external_body]
pub(crate) fn emit_i32_gt_u(body: &mut wasm_encoder::Function)
    ensures
        function_locals(*final(body)) == function_locals(*old(body)),
        function_instructions(*final(body)) == function_instructions(*old(body)).push(
            Instruction::I32GtU,
        ),
{
    body.instructions().i32_gt_u();
}

/// `wasm_encoder::InstructionSink::i32_ge_u` on the sink of the body: adds the
/// instruction that compares two numbers, unsigned: greater or equal.
#[verifier::external_body]
pub(crate) fn emit_i32_ge_u(body: &mut wasm_encoder::Function)
    ensures
        function_locals(*final(body)) == function_locals(*old(body)),
        function_instructions(*final(body)) == function_instructions(*old(body)).push(
            Instruction::I32GeU,
        ),
{
    body.instructions().i32_ge_u();
}

/// `wasm_encoder::InstructionSink::i32_lt_u` on the sink of the body: adds the
/// instruction that compares two numbers, unsigned: less.
#[verifier::external_body]
pub(crate) fn emit_i32_lt_u(body: &mut wasm_encoder::Function)
    ensures
        function_locals(*final(body)) == function_locals(*old(body)),
        function_instructions(*final(body)) == function_instructions(*old(body)).push(
            Instruction::I32LtU,
        ),
{
    body.instructions().i32_lt_u();
}

/// `wasm_encoder::InstructionSink::i32_le_u` on the sink of the body: adds the
/// instruction that compares two numbers, unsigned: less or equal.
#[verifier::external_body]
pub(crate) fn emit_i32_le_u(body: &mut wasm_encoder::Function)
    ensures
        function_locals(*final(body)) == function_locals(*old(body)),
        function_instructions(*final(body)) == function_instructions(*old(body)).push(
            Instruction::I32LeU,
        ),
{
    body.instructions().i32_le_u();
}

/// `wasm_encoder::InstructionSink::i32_eq` on the sink of the body: adds the
/// instruction that compares two numbers: equal.
#[verifier::external_body]
pub(crate) fn emit_i32_eq(body: &mut wasm_encoder::Function)
    ensures
        function_locals(*final(body)) == function_locals(*old(body)),
        function_instructions(*final(body)) == function_instructions(*old(body)).push(
            Instruction::I32Eq,
        ),
{
    body.instructions().i32_eq();
}

/// `wasm_encoder::InstructionSink::i32_add` on the sink of the body: adds the
/// instruction that adds two numbers.
#[verifier::external_body]
pub(crate) fn emit_i32_add(body: &mut wasm_encoder::Function)
    ensures
        function_locals(*final(body)) == function_locals(*old(body)),
        function_instructions(*final(body)) == function_instructions(*old(body)).push(
            Instruction::I32Add,
        ),
{
    body.instructions().i32_add();
}

/// `wasm_encoder::InstructionSink::if_` on the sink of the body, with the
/// empty block type: adds the instruction that opens a conditional which leaves
/// nothing on the stack.
#[verifier::external_body]
pub(crate) fn emit_if(body: &mut wasm_encoder::Function)
    ensures
        function_locals(*final(body)) == function_locals(*old(body)),
        function_instructions(*final(body)) == function_instructions(*old(body)).push(
            Instruction::If(BlockType::Empty),
        ),
{
    body.instructions().if_(wasm_encoder::BlockType::Empty);
}

/// `wasm_encoder::InstructionSink::block` on the sink of the body, with the
/// empty block type: adds the instruction that opens a block which leaves
/// nothing on the stack.
#[verifier::external_body]
pub(crate) fn emit_block(body: &mut wasm_encoder::Function)
    ensures
        function_locals(*final(body)) == function_locals(*old(body)),
        function_instructions(*final(body)) == function_instructions(*old(body)).push(
            Instruction::Block(BlockType::Empty),
        ),
{
    body.instructions().block(wasm_encoder::BlockType::Empty);
}

/// `wasm_encoder::InstructionSink::loop_` on the sink of the body, with the
/// empty block type: adds the instruction that opens a loop which leaves
/// nothing on the stack.
#[verifier::external_body]
pub(crate) fn emit_loop(body: &mut wasm_encoder::Function)
    ensures
        function_locals(*final(body)) == function_locals(*old(body)),
        function_instructions(*final(body)) == function_instructions(*old(body)).push(
            Instruction::Loop(BlockType::Empty),
        ),
{
    body.instructions().loop_(wasm_encoder::BlockType::Empty);
}

/// `wasm_encoder::Module::new`, `Module::section` for each of the four
/// sections in the order type, function, export, code, and `Module::finish`:
/// the bytes of the module. The size of each section is written as a number
/// of 32 bits.
#[verifier::external_body]
pub(crate) fn finish_module(
    types: &wasm_encoder::TypeSection,
    functions: &wasm_encoder::FunctionSection,
    exports: &wasm_encoder::ExportSection,
    codes: &wasm_encoder::CodeSection,
) -> (bytes: Vec<u8>)
    requires
        types_bytes(type_section_entries(*types)) <= SECTION_LIMIT,
        5 * function_section_entries(*functions).len() <= SECTION_LIMIT,
        exports_bytes(export_section_entries(*exports)) <= SECTION_LIMIT,
        codes_bytes(code_section_entries(*codes)) <= SECTION_LIMIT,
    ensures
        bytes@ == module_encoding(
            type_section_entries(*types),
            function_section_entries(*functions),
            export_section_entries(*exports),
            code_section_entries(*codes),
        ),
{
    let mut module = wasm_encoder::Module::new();
    module.section(types);
    module.section(functions);
    module.section(exports);
    module.section(codes);
    module.finish()
}

} // verus!
