//! The diagnostic that ends a failed lexing pass.

use vstd::prelude::*;
use crate::parser::token::{Token, TokenType, TokenTypeView, TokenView};

verus! {

/// A lexical error: where it is, what is wrong, and the source it is in.
#[derive(Debug, PartialEq, Eq)]
pub struct ParsingError {
    /// The offending span.
    pub position: Token,
    /// Human-readable description.
    pub message: String,
    /// Snapshot of all source lines, for rendering the error in context.
    pub data: Vec<String>,
}

/// Mathematical view of a [`ParsingError`].
pub struct ParsingErrorView {
    pub position: TokenView,
    pub message: Seq<char>,
    pub data: Seq<Seq<char>>,
}

impl View for ParsingError {
    type V = ParsingErrorView;

    open spec fn view(&self) -> ParsingErrorView {
        ParsingErrorView {
            position: self.position@,
            message: self.message@,
            data: self.data.deep_view(),
        }
    }
}

impl ParsingError {
    /// A diagnostic for the span given by its four numbers.
    pub fn new(
        begin_line: usize,
        begin_char: usize,
        len_char: usize,
        len_line: usize,
        message: String,
        data: Vec<String>,
    ) -> (error: Self)
        ensures
            error@ == (ParsingErrorView {
                position: TokenView {
                    begin_line: begin_line as int,
                    begin_char: begin_char as int,
                    len_char: len_char as int,
                    len_line: len_line as int,
                    token_type: TokenTypeView::Unknown,
                },
                message: message@,
                data: data.deep_view(),
            }),
    {
        ParsingError {
            position: Token {
                begin_line,
                begin_char,
                len_char,
                len_line,
                token_type: TokenType::Unknown,
            },
            message,
            data,
        }
    }

    /// A diagnostic for the span of `token`.
    pub fn from_token(token: Token, message: String, data: Vec<String>) -> (error: Self)
        ensures
            error@ == (ParsingErrorView {
                position: token@,
                message: message@,
                data: data.deep_view(),
            }),
    {
        ParsingError { position: token, message, data }
    }
}

} // verus!
