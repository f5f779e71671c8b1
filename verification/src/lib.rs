//! Lexical and early syntactic front end for an ECMAScript-family language:
//! a context-sensitive tokenizer and a parser for object literals and
//! object patterns, with machine-checked contracts.

pub mod ast;
pub mod chars;
pub mod error;
pub mod lexer;
pub mod parser;
pub mod span;
pub mod text;
pub mod token;
pub mod words;
