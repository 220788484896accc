//! Middle and back end of a compiler for a small imperative language: name
//! resolution, lowering to a flat instruction form, code generation for a
//! stack machine with structured control flow, and linking into one binary
//! module.

pub mod codegen;
pub mod error;
pub mod laws;
pub mod linker;
pub mod parser;
pub mod renamer;
pub mod runner;
pub mod simplifier;
pub mod util;
