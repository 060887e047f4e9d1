//! Source text to syntax tree: the tokenizer, the tree, the grammar that
//! says which tree a token sequence stands for, and the parser that builds
//! it.

pub mod ast;
pub mod grammar;
pub mod lexer;
pub mod parser;
pub mod progress;
