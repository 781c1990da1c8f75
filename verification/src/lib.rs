//! A small register machine and the assembler that targets it.
//!
//! Assembly text is recognised one instruction at a time, each instruction is
//! encoded into a fixed byte layout, and the machine executes that layout with
//! a fetch, decode and execute loop.

pub mod assembler;
pub mod instruction;
pub mod lexical;
pub mod pipeline;
pub mod repl;
pub mod vm;
