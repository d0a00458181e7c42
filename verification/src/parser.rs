//! Syntactic analysis: the expression tree and the recursive-descent parser.

pub mod ast;
pub mod parser_core;
