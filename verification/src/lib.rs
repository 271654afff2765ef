//! A small imperative language: lexer, recursive-descent parser and
//! tree-walking evaluator, with every stage specified and verified.
//!
//! Source text is turned into tokens by [`lexer::Lexer`], tokens into
//! statements by [`parser::Parser`], and statements are executed against a
//! [`context::Context`] by the functions of [`asteva`]. Each stage reports
//! the first failure it meets as a typed error and never panics.
pub mod asteva;
pub mod astnode;
pub mod context;
pub mod error;
pub mod grammar;
pub mod interpreter;
pub mod laws;
pub mod lexer;
pub mod operator;
pub mod parser;
pub mod semantics;
pub mod table;
pub mod text;
pub mod token;
pub mod value;
