use vstd::prelude::*;

verus! {

/// The type of a value of the target machine. Every value of a compiled
/// program is a number of 32 bits.
#[derive(Debug, Clone, Copy, PartialEq, Eq, Hash, Structural)]
pub enum ValType {
    I32,
}

/// The type of what a block leaves on the stack. The compiler's blocks leave nothing.
#[derive(Debug, Clone, Copy, PartialEq, Eq, Hash, Structural)]
pub enum BlockType {
    Empty,
}

/// An instruction of the target machine, as far as the compiler emits it. A
/// branch names its target by depth: 0 is the innermost enclosing block, loop
/// or conditional.
#[derive(Debug, Clone, Copy, PartialEq, Eq, Hash, Structural)]
pub enum Instruction {
    I32Const(i32),
    LocalGet(u32),
    LocalSet(u32),
    Return,
    If(BlockType),
    Else,
    End,
    Block(BlockType),
    Loop(BlockType),
    Br(u32),
    Call(u32),
    I32GtU,
    I32GeU,
    I32LtU,
    I32LeU,
    I32Eq,
    I32Add,
}

/// A binary module of the target machine.
#[derive(Debug, Clone, PartialEq, Eq)]
pub struct WasmBytes {
    pub bytes: Vec<u8>,
}

/// A module in the text format of the target machine.
#[derive(Debug, Clone, PartialEq, Eq)]
pub struct WatText {
    pub text: String,
}

} // verus!
