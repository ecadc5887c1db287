//! The scanner and the data it produces.

pub mod error;
pub mod grammar;
pub mod laws;
pub mod lexer;
pub mod text;
pub mod token;
