//! Front end of a compiler for a small curly-brace language: a lexer that turns source text
//! into tokens and a recursive-descent parser that turns tokens into a source-located syntax
//! tree. Every function states what it computes over mathematical views of the data, and
//! Verus proves that the code meets these statements.

pub mod file;
pub mod ir;
pub mod lexer;
pub mod parser;
pub mod validation;
