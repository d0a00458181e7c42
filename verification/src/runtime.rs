//! Evaluation: the variable environment and the tree-walking evaluator.

pub mod environment;
pub mod runtime_core;
