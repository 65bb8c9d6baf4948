//! A byte-level tokenizer for a small scripting language.
//!
//! The lexer reads from an in-memory [`source::Source`], hands out one
//! [`token::Token`] at a time through `peek` and `next`, and reports malformed
//! input as a [`token::LexError`] instead of stopping the process.
pub mod token;
pub mod source;
pub mod scan;
pub mod lex;
