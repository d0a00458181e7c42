//! Lexical analysis: tokens and the scanner.

pub mod lexer_core;
pub mod token;
