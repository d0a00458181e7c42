//! A minimal expression-language front end, verified with Verus.
//!
//! Source text is scanned into tokens, the tokens are parsed into an
//! arithmetic expression tree, and the tree is evaluated against a variable
//! environment.  Numbers travel through the pipeline as their exact decimal
//! spelling: IEEE floating-point arithmetic lies outside the verified
//! fragment, so the evaluator reduces a tree to the exact left-to-right
//! schedule of pushes and operator applications, and the host that drives
//! the pipeline folds that schedule on its own float unit.

pub mod lexer;
pub mod parser;
pub mod runtime;
