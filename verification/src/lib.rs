//! A recursive-descent parser for a small expression / function-definition
//! language. Pre-lexed tokens are consumed through a one-token-lookahead
//! cursor; mutually recursive grammar productions (factor, term, expression,
//! statement) build an abstract syntax tree and hand each completed top-level
//! statement to a caller-supplied evaluator.

pub mod ast;
pub mod error;
pub mod grammar;
pub mod laws;
pub mod parser;
pub mod token;
