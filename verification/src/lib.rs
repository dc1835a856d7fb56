//! Lexical front end for a small call-expression language.
//!
//! The scanner walks an immutable source text with a character cursor and
//! classifies each maximal run of characters into a token (identifier,
//! numeric or string literal, punctuation, ignorable run) or a positioned
//! error value. Every scanning step is specified against a mathematical
//! model of the cursor in [`scan`], and the stream-level properties of the
//! token sequence are proved in [`laws`].

pub mod decimal;
pub mod error;
pub mod laws;
pub mod lexer;
pub mod scan;
