//! A lexical scanner for a small C-like language.
//!
//! Source text goes in one line at a time and comes out as a list of tokens:
//! keywords, preprocessor directives, punctuation and operators, identifiers,
//! integer literals, and an error token for whatever fits none of these.
//! Each token carries its kind, the exact text it was read from, and the
//! 1-based line and column at which that text starts.

pub mod text;
pub mod token;
pub mod scanner;
pub mod laws;
