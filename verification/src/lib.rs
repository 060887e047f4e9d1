//! Kaulin: a small dynamically typed scripting language with Finnish
//! keywords.
//!
//! Source text is turned into tokens by [`frontend::lexer::tokenize`], the
//! tokens into a syntax tree by [`frontend::parser::Parser`], and the tree
//! is executed by [`runtime::interpreter::evaluate`], a recursive evaluator
//! over a chain of lexical scopes; [`runtime::interpreter::run`] does all
//! three.
//!
//! What each of them gives is stated exactly: the tokens by
//! [`frontend::lexer::lex`], the tree by [`frontend::grammar`], the value
//! and the scopes that a run leaves by [`runtime::semantics`]. The numbers
//! of the language are doubles. The library holds them as bit patterns and
//! leaves their arithmetic, like the native functions, to a
//! [`runtime::host::Host`]; the semantics says what a program means given
//! the host's answers.

pub mod error;
pub mod frontend;
pub mod runtime;
pub mod text;
