//! A single-pass bytecode compiler and stack virtual machine for a small
//! dynamically typed scripting language: variable declarations, assignment,
//! arithmetic on 64-bit signed integers, string concatenation, comparison,
//! logical `and`/`or`, `print`, blocks with lexical scoping, `if`/`else`,
//! `while`, and C-style `for` loops.
//!
//! The pipeline is: the scanner turns source bytes into tokens, the compiler
//! parses the token stream (Pratt-style) while emitting bytecode into a chunk,
//! and the virtual machine executes the chunk against a value stack and a
//! table of global variables, collecting printed values into an output list.

pub mod common;
pub mod compiler;
pub mod debug;
pub mod object;
pub mod value;
pub mod chunk;
pub mod scanner;
pub mod vm;
