//! Tokens and their mathematical views.

use vstd::prelude::*;

verus! {

/// What a token stands for.
#[derive(Debug, PartialEq, Eq)]
pub enum TokenType {
    Pin,
    Table,
    Count,
    Fill,
    Dff,
    Identifier(String),
    Number(isize),
    /// Bits of a bit-vector literal, index 0 being the leftmost digit.
    BoolTable(Vec<bool>),
    And,
    Or,
    Xor,
    Not,
    RoundOpen,
    RoundClose,
    CurlyOpen,
    CurlyClose,
    SquareOpen,
    SquareClose,
    Comma,
    Semicolon,
    Equals,
    Dot,
    Arrow,
    /// Whitespace (`None`) or a comment with its verbatim text (`Some`).
    Ignore(Option<String>),
    /// Placeholder kind carried by the position of a diagnostic.
    Unknown,
}

/// Mathematical view of a [`TokenType`].
pub enum TokenTypeView {
    Pin,
    Table,
    Count,
    Fill,
    Dff,
    Identifier(Seq<char>),
    Number(int),
    BoolTable(Seq<bool>),
    And,
    Or,
    Xor,
    Not,
    RoundOpen,
    RoundClose,
    CurlyOpen,
    CurlyClose,
    SquareOpen,
    SquareClose,
    Comma,
    Semicolon,
    Equals,
    Dot,
    Arrow,
    Ignore(Option<Seq<char>>),
    Unknown,
}

impl View for TokenType {
    type V = TokenTypeView;

    open spec fn view(&self) -> TokenTypeView {
        match self {
            TokenType::Pin => TokenTypeView::Pin,
            TokenType::Table => TokenTypeView::Table,
            TokenType::Count => TokenTypeView::Count,
            TokenType::Fill => TokenTypeView::Fill,
            TokenType::Dff => TokenTypeView::Dff,
            TokenType::Identifier(name) => TokenTypeView::Identifier(name@),
            TokenType::Number(value) => TokenTypeView::Number(*value as int),
            TokenType::BoolTable(bits) => TokenTypeView::BoolTable(bits@),
            TokenType::And => TokenTypeView::And,
            TokenType::Or => TokenTypeView::Or,
            TokenType::Xor => TokenTypeView::Xor,
            TokenType::Not => TokenTypeView::Not,
            TokenType::RoundOpen => TokenTypeView::RoundOpen,
            TokenType::RoundClose => TokenTypeView::RoundClose,
            TokenType::CurlyOpen => TokenTypeView::CurlyOpen,
            TokenType::CurlyClose => TokenTypeView::CurlyClose,
            TokenType::SquareOpen => TokenTypeView::SquareOpen,
            TokenType::SquareClose => TokenTypeView::SquareClose,
            TokenType::Comma => TokenTypeView::Comma,
            TokenType::Semicolon => TokenTypeView::Semicolon,
            TokenType::Equals => TokenTypeView::Equals,
            TokenType::Dot => TokenTypeView::Dot,
            TokenType::Arrow => TokenTypeView::Arrow,
            TokenType::Ignore(text) => TokenTypeView::Ignore(
                match text {
                    Some(t) => Some(t@),
                    None => None,
                },
            ),
            TokenType::Unknown => TokenTypeView::Unknown,
        }
    }
}

impl Clone for TokenType {
    fn clone(&self) -> (copy: Self)
        ensures
            copy@ == self@,
    {
        match self {
            TokenType::Pin => TokenType::Pin,
            TokenType::Table => TokenType::Table,
            TokenType::Count => TokenType::Count,
            TokenType::Fill => TokenType::Fill,
            TokenType::Dff => TokenType::Dff,
            TokenType::Identifier(name) => TokenType::Identifier(name.clone()),
            TokenType::Number(value) => TokenType::Number(*value),
            TokenType::BoolTable(bits) => TokenType::BoolTable(bits.clone()),
            TokenType::And => TokenType::And,
            TokenType::Or => TokenType::Or,
            TokenType::Xor => TokenType::Xor,
            TokenType::Not => TokenType::Not,
            TokenType::RoundOpen => TokenType::RoundOpen,
            TokenType::RoundClose => TokenType::RoundClose,
            TokenType::CurlyOpen => TokenType::CurlyOpen,
            TokenType::CurlyClose => TokenType::CurlyClose,
            TokenType::SquareOpen => TokenType::SquareOpen,
            TokenType::SquareClose => TokenType::SquareClose,
            TokenType::Comma => TokenType::Comma,
            TokenType::Semicolon => TokenType::Semicolon,
            TokenType::Equals => TokenType::Equals,
            TokenType::Dot => TokenType::Dot,
            TokenType::Arrow => TokenType::Arrow,
            TokenType::Ignore(text) => TokenType::Ignore(
                match text {
                    Some(t) => Some(t.clone()),
                    None => None,
                },
            ),
            TokenType::Unknown => TokenType::Unknown,
        }
    }
}

/// A token with the span of source text it covers.
///
/// `begin_line` and `begin_char` locate the first character, `len_char` counts
/// the characters covered (line breaks included) and `len_line` the physical
/// lines touched.
#[derive(Debug, PartialEq, Eq)]
pub struct Token {
    pub begin_line: usize,
    pub begin_char: usize,
    pub len_char: usize,
    pub len_line: usize,
    pub token_type: TokenType,
}

/// Mathematical view of a [`Token`].
pub struct TokenView {
    pub begin_line: int,
    pub begin_char: int,
    pub len_char: int,
    pub len_line: int,
    pub token_type: TokenTypeView,
}

impl View for Token {
    type V = TokenView;

    open spec fn view(&self) -> TokenView {
        TokenView {
            begin_line: self.begin_line as int,
            begin_char: self.begin_char as int,
            len_char: self.len_char as int,
            len_line: self.len_line as int,
            token_type: self.token_type@,
        }
    }
}

impl DeepView for Token {
    type V = TokenView;

    open spec fn deep_view(&self) -> TokenView {
        self@
    }
}

impl Clone for Token {
    fn clone(&self) -> (copy: Self)
        ensures
            copy@ == self@,
    {
        Token {
            begin_line: self.begin_line,
            begin_char: self.begin_char,
            len_char: self.len_char,
            len_line: self.len_line,
            token_type: self.token_type.clone(),
        }
    }
}

/// Copies a token list, token by token.
pub fn clone_tokens(tokens: &Vec<Token>) -> (copy: Vec<Token>)
    ensures
        copy.deep_view() == tokens.deep_view(),
{
    tokens.clone()
}

} // verus!
