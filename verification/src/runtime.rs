//! Running a program: numbers, values, scopes, the semantics that says
//! what a program means, the evaluator that computes it, and the laws of
//! the semantics.

pub mod budget;
pub mod determinism;
pub mod environment;
pub mod eval;
pub mod host;
pub mod interpreter;
pub mod native_functions;
pub mod number;
pub mod order;
pub mod scoping;
pub mod semantics;
pub mod values;
