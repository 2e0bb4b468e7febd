//! Lexical-analysis front end for a small scripting language: a single-pass,
//! maximal-munch scanner with bounded lookahead that turns source text into a
//! sequence of classified tokens, with the whitespace and comment markers
//! filtered out of the final list.

pub mod ast;
pub mod chars;
pub mod laws;
pub mod scanner;
pub mod stream;
pub mod token;
