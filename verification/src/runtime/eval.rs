//! The evaluator's rules, one function for each kind of node.

pub mod expressions;
pub mod operators;
pub mod statements;
