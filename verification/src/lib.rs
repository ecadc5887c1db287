//! Lexical front-end of a small language for describing digital-logic
//! circuits: pins, truth tables, boolean expressions and flip-flops.
//!
//! The crate turns newline-terminated source lines into a stream of
//! positioned tokens, or into a single diagnostic for the first lexical
//! error. Every function is verified against the token grammar stated in
//! [`parser::grammar`].

pub mod constants;
pub mod parser;
