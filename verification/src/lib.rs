//! Execution core of a small stack-based bytecode runtime: chunks of
//! encoded instructions with a constant pool and per-byte line table, a
//! disassembler that walks them, a virtual machine that executes them, and
//! the lexical scanner that feeds the (external) compiler stage.

pub mod chunks;
pub mod common;
pub mod disassemble;
pub mod scanner;
pub mod tokens;
pub mod vm;
