//! A tree-walking evaluator for a small dynamically typed expression
//! language: source text is scanned into tokens, parsed into an expression
//! tree by recursive descent, and either evaluated to a runtime value or
//! rendered as a fully parenthesized prefix string.

pub mod ast;
pub mod err;
pub mod expr;
pub mod interpreter;
pub mod num;
pub mod parser;
pub mod scanner;
pub mod strix;
pub mod tokenizer;
