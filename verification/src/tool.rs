//! Tools for working on the interpreter itself.

pub mod generate_ast;
