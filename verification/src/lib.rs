//! Lexical front end for a small textual modeling language: it turns raw
//! source text into a stream of classified, position-tagged tokens.
//!
//! The crate is layered. [`chscan`] wraps the source string in a
//! character scanner with single-character lookahead, a position counted
//! in Unicode scalar values, and a marker for span extraction. [`lexer`]
//! drives it to produce a lazy, peekable stream of token-or-error
//! results: operators with greedy two-character matching, identifiers,
//! and numeric literals in decimal, hexadecimal, binary and
//! floating-point form, with digit separators and overflow detection.
//! [`parser`] holds small parsing helpers built on the token stream.
//!
//! The spec-level model of tokenization lives in [`scanning`]: every
//! token the lexer hands out is proved equal to what the model demands,
//! and the model's laws — the consumed spans tile the input, positions
//! strictly increase, parsed integer values round-trip through radix
//! formatting — are proved there.

pub mod chscan;
pub mod lexer;
pub mod parser;
pub mod scanning;
pub mod token;
