//! A small compiler tool chain, from the typed intermediate program down to
//! a flat binary image.
//!
//! - [`llvm`] is the source program: typed values, instructions, blocks,
//!   functions and globals.
//! - [`x86`] is the target program: registers, operands, instructions and
//!   labelled blocks of code and data, with their text for an assembler.
//! - [`backend`] lowers the one to the other: stack layout, operands,
//!   address computations, instructions, terminators, functions, globals.
//! - [`assembler`] lays a target program out in memory: it gives every label
//!   its address, puts the addresses in the place of the labels, and frames
//!   the bytes as an image.
//! - [`parser`] reads a target program from its text.
//! - [`ast`], [`common`] and [`typechecker`] are the syntax tree of the source
//!   language, its positions and errors, and the check of its types.
//! - [`driver`] holds what the command line driver decides.
//!
//! Every function states what it computes over the mathematical values of
//! its arguments, and is proved to compute that.

pub mod seqs;
pub mod x86;
pub mod llvm;
pub mod backend;
pub mod assembler;
pub mod parser;
pub mod ast;
pub mod common;
pub mod typechecker;
pub mod driver;
