//! A lexer for a small scripting language: source text in, typed tokens out,
//! with the scanner proved against a model of what each call returns.

pub mod lexer;
pub mod repl;
pub mod token;
