//! A recognizer for C1, a small C-like language: it accepts a source text
//! whose tokens form a program, or reports the first syntax error with the
//! offending token's text and line.
pub mod token;
pub mod lexer_spec;
mod scan;
pub mod lexer;
mod lex_prefix;
pub mod rules;
pub mod grammar;
mod soundness;
mod completeness;
mod balance;
pub mod laws;
pub mod error;
pub mod parser;

pub use error::{ErrorKind, ParseResult, SyntaxError};
pub use lexer::C1Lexer;
pub use parser::C1Parser;
pub use token::C1Token;
