//! Front end and evaluator of a small expression language: a scanner from
//! source text to tokens, a recursive-descent parser from tokens to a syntax
//! tree, and a tree-walking evaluator from the tree to a value.

pub mod ast_printer;
pub mod error_handler;
pub mod expr;
pub mod grammar;
pub mod interpreter;
pub mod laws;
pub mod lexical;
pub mod number;
pub mod parser;
pub mod program;
pub mod scanner;
pub mod text;
pub mod tool;
pub mod token;
pub mod token_type;
