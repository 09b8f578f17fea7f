//! Front end of a small Triangle-like teaching language: a lexer that turns
//! source text into positioned tokens and a recursive-descent parser that
//! turns a token sequence into a syntax tree or the first syntax error.
//!
//! - [`token`], [`ast`]: the data, tokens and trees.
//! - [`text`], [`numbers`]: character classes and decimal numerals.
//! - [`scan`], [`lexer`], [`scan_laws`]: what the lexer reads, the lexer,
//!   and what follows for the tokens of a text.
//! - [`grammar`], [`parser`], [`grammar_laws`]: what each grammar rule
//!   reads, the parser, and what follows for every tree.
//! - [`interchange`], [`interchange_laws`], [`labelled`]: the two line
//!   formats in which tokens are written down and read again.

pub mod token;
pub mod ast;
pub mod text;
pub mod numbers;
pub mod grammar;
pub mod grammar_laws;
pub mod parser;
pub mod scan;
pub mod lexer;
pub mod scan_laws;
pub mod interchange;
pub mod interchange_laws;
pub mod labelled;
