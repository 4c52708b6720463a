//! A miniature ahead-of-time code generator: assignment statements and
//! built-in calls are turned directly into x86-64 machine code inside a
//! runnable 64-bit ELF executable, with no external assembler or linker.
//! All multi-byte fields, both in-register immediates and on-disk ELF
//! fields, are encoded little-endian.

pub mod asm_macro;
pub mod asm_opcode;
pub mod assembler;
pub mod constdata;
pub mod elfwriter;
pub mod generator;
pub mod parser;
pub mod scanner;
pub mod strutil;
pub mod symboltable;
pub mod tree;
