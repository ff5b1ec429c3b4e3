//! What holds of the scanner, the parser and the evaluator, each alone and
//! together.

pub mod evaluation;
pub mod parsing;
pub mod reading_back;
