//! A lexical scanner for a small dynamically-typed scripting language, with
//! a pretty-printer for expression trees.
//!
//! Every function is verified against a mathematical model: a source buffer is
//! a `Seq<u8>`, a token is its [`tokens::TokenView`], and the scanner's result
//! is the function [`lexical::lex`] of the buffer.

pub mod utils;
pub mod text;
pub mod grammar;
pub mod decimal;
pub mod tokens;
pub mod errors;
pub mod lexical;
pub mod token_scanner;
pub mod theorems;
pub mod expr;
pub mod ast;
