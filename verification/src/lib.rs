//! Front end of a compiler for a small imperative language: a byte-driven
//! finite-state tokenizer, a token stream with one-token lookahead, and a
//! predictive recursive-descent parser that builds a typed syntax tree.

pub mod ast;
pub mod balance;
pub mod frontend;
pub mod laws;
pub mod lexer;
pub mod parser;
pub mod stream;
pub mod token;
