//! Front end of a compiler for a small block-structured, expression-oriented
//! language: a position oracle that maps byte offsets to line/column pairs, a
//! token scanner that classifies raw text into a typed token stream, and the
//! grammar model (AST) that resolves the dangling-else ambiguity structurally,
//! together with a small straight-line-program interpreter.

pub mod position;
pub mod prog;
pub mod interp;
pub mod slp;
pub mod ast;
pub mod lexer;
pub mod parser;
pub mod token;
