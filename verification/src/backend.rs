//! Code generation: from the source program to machine instructions.

pub mod types;
pub mod context;
pub mod lower;
pub mod insn;
pub mod block;
pub mod program;
pub mod laws;
