//! A toolchain for CHIP-8: a lexer and a single-pass compiler for a small
//! C-like language, an assembler for the compiler's opcodes, and the
//! interpreter that runs the assembled program.

pub mod assembler;
pub mod chip8;
pub mod compiler;
pub mod disasm;
pub mod grammar;
pub mod lexer;
pub mod machine;
pub mod roundtrip;
pub mod text;
pub mod utils;
