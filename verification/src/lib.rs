//! The front end of an interpreter for a small scripting language: a lexer
//! that turns source text into tokens, and a parser that turns tokens into
//! the statements of a program and a list of diagnostics.
//!
//! `scan` and `grammar` say in mathematical terms what the tokens and the
//! parse of a text are; `lexer` and `parser` compute them.

pub mod ast;
pub mod grammar;
pub mod lexer;
pub mod parser;
pub mod scan;
pub mod strings;
pub mod token;
