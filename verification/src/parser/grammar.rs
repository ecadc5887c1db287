//! The token grammar, stated over sequences of characters.
//!
//! A source is a sequence of lines, each a non-empty sequence of characters
//! that ends with a line break. [`scan_at`] says which token starts at a
//! position, and [`lex_from`] chains the tokens from a position to the end of
//! the source. The executable scanner is verified against these definitions.

use vstd::prelude::*;
use crate::constants::{AND, NOT, OR, XOR};
use crate::parser::error::ParsingErrorView;
use crate::parser::token::{TokenTypeView, TokenView};

verus! {

/// A place in a source: a line and a character within it.
pub struct Position {
    pub line: int,
    pub column: int,
}

/// What scanning at one position yields.
pub enum Scan {
    /// A token, and the position right after it.
    Found { token: TokenView, next: Position },
    /// The text at the position starts no token.
    Failed(ParsingErrorView),
}

/// The classes of characters that runs are made of.
pub enum CharClass {
    /// Decimal digits.
    Digit,
    /// The binary digits `0` and `1`.
    Bit,
    /// Letters, decimal digits and the underscore.
    Word,
}

/// A line has at least one character and ends with a line break.
pub open spec fn valid_line(line: Seq<char>) -> bool {
    line.len() > 0 && line[line.len() - 1] == '\n'
}

/// A source has at least one line, and each of its lines is valid.
pub open spec fn valid_source(src: Seq<Seq<char>>) -> bool {
    &&& src.len() > 0
    &&& forall|i: int| 0 <= i < src.len() ==> valid_line(#[trigger] src[i])
}

/// The position of the first character.
pub open spec fn start() -> Position {
    Position { line: 0, column: 0 }
}

/// The position reached when every character has been passed.
pub open spec fn end_of(src: Seq<Seq<char>>) -> Position {
    Position { line: src.len() as int, column: 0 }
}

/// The position of the last character.
pub open spec fn last_of(src: Seq<Seq<char>>) -> Position {
    Position { line: src.len() - 1, column: src[src.len() - 1].len() - 1 }
}

/// Whether `p` addresses a character of `src`.
pub open spec fn in_source(src: Seq<Seq<char>>, p: Position) -> bool {
    0 <= p.line < src.len() && 0 <= p.column < src[p.line].len()
}

/// Whether `p` addresses a character of `src` or is its end.
pub open spec fn reachable(src: Seq<Seq<char>>, p: Position) -> bool {
    in_source(src, p) || p == end_of(src)
}

/// Whether `q` comes later than `p` in reading order.
pub open spec fn after(p: Position, q: Position) -> bool {
    p.line < q.line || (p.line == q.line && p.column < q.column)
}

/// The character at `p`.
pub open spec fn char_at(src: Seq<Seq<char>>, p: Position) -> char {
    src[p.line][p.column]
}

/// The position one character further, moving to the next line after the
/// last character of a line.
pub open spec fn step(src: Seq<Seq<char>>, p: Position) -> Position {
    if p.column + 1 < src[p.line].len() {
        Position { line: p.line, column: p.column + 1 }
    } else {
        Position { line: p.line + 1, column: 0 }
    }
}

/// The letters of identifiers: `A` to `Z` and `a` to `z`, nothing else.
pub open spec fn is_letter(c: char) -> bool {
    ('a' <= c && c <= 'z') || ('A' <= c && c <= 'Z')
}

/// The decimal digits `0` to `9`.
pub open spec fn is_digit(c: char) -> bool {
    '0' <= c && c <= '9'
}

/// Whether `c` belongs to `class`.
pub open spec fn in_class(class: CharClass, c: char) -> bool {
    match class {
        CharClass::Digit => is_digit(c),
        CharClass::Bit => c == '0' || c == '1',
        CharClass::Word => is_letter(c) || is_digit(c) || c == '_',
    }
}

/// Where the longest run of `class` characters that starts at `from` ends:
/// the first index at or after `from` that holds no character of the class.
pub open spec fn run_end(line: Seq<char>, from: int, class: CharClass) -> int
    decreases line.len() - from,
{
    if 0 <= from < line.len() && in_class(class, line[from]) {
        run_end(line, from + 1, class)
    } else {
        from
    }
}

/// The token kind of a character that is a token by itself, if it is one.
pub open spec fn symbol_kind(c: char) -> Option<TokenTypeView> {
    if c == AND {
        Some(TokenTypeView::And)
    } else if c == OR {
        Some(TokenTypeView::Or)
    } else if c == XOR {
        Some(TokenTypeView::Xor)
    } else if c == NOT {
        Some(TokenTypeView::Not)
    } else if c == '(' {
        Some(TokenTypeView::RoundOpen)
    } else if c == ')' {
        Some(TokenTypeView::RoundClose)
    } else if c == '{' {
        Some(TokenTypeView::CurlyOpen)
    } else if c == '}' {
        Some(TokenTypeView::CurlyClose)
    } else if c == '[' {
        Some(TokenTypeView::SquareOpen)
    } else if c == ']' {
        Some(TokenTypeView::SquareClose)
    } else if c == ',' {
        Some(TokenTypeView::Comma)
    } else if c == ';' {
        Some(TokenTypeView::Semicolon)
    } else if c == '=' {
        Some(TokenTypeView::Equals)
    } else if c == '.' {
        Some(TokenTypeView::Dot)
    } else if c == ' ' || c == '\t' || c == '\n' {
        Some(TokenTypeView::Ignore(None))
    } else {
        None
    }
}

/// The value of one decimal digit.
pub open spec fn digit_value(c: char) -> int {
    c as int - '0' as int
}

/// The number that a run of decimal digits writes.
pub open spec fn decimal_value(digits: Seq<char>) -> int
    decreases digits.len(),
{
    if digits.len() == 0 {
        0
    } else {
        10 * decimal_value(digits.drop_last()) + digit_value(digits.last())
    }
}

/// The bits that a run of binary digits writes, leftmost digit first.
pub open spec fn bits_of(digits: Seq<char>) -> Seq<bool> {
    Seq::new(digits.len(), |i: int| digits[i] == '1')
}

/// The kind of a word: one of the five reserved words if it is spelt
/// exactly like it, an identifier otherwise.
pub open spec fn word_kind(name: Seq<char>) -> TokenTypeView {
    if name == "pin"@ {
        TokenTypeView::Pin
    } else if name == "table"@ {
        TokenTypeView::Table
    } else if name == "count"@ {
        TokenTypeView::Count
    } else if name == "fill"@ {
        TokenTypeView::Fill
    } else if name == "dff"@ {
        TokenTypeView::Dff
    } else {
        TokenTypeView::Identifier(name)
    }
}

/// A message that ends with the offending text in angle brackets.
pub open spec fn citing(opening: Seq<char>, culprit: Seq<char>) -> Seq<char> {
    opening + culprit + ">"@
}

/// Message for a character that starts no token.
pub open spec fn unexpected_character(c: char) -> Seq<char> {
    citing("unexpected character <"@, seq![c])
}

/// Message for a slash that is followed by neither a star nor a slash, and
/// for a block comment that is still open at the end of the source.
pub open spec fn expected_comment(c: char) -> Seq<char> {
    citing("unexpected character expected <*, /> got <"@, seq![c])
}

/// Message for a dash that is not followed by `>`.
pub open spec fn expected_arrow_head(c: char) -> Seq<char> {
    citing("unexpected char expected <>> got <"@, seq![c])
}

/// Message for a decimal digit in a literal that starts with `0`.
pub open spec fn expected_bit(c: char) -> Seq<char> {
    citing("expectet <0, 1> got <"@, seq![c])
}

/// Message for a number that the integer type cannot hold.
pub open spec fn number_too_large(digits: Seq<char>) -> Seq<char> {
    citing("parsing error while parsing number expectet <[0-9]> got <"@, digits)
}

/// A token on one line that starts at `p`.
pub open spec fn found(p: Position, len_char: int, kind: TokenTypeView, next: Position) -> Scan {
    Scan::Found {
        token: TokenView {
            begin_line: p.line,
            begin_char: p.column,
            len_char,
            len_line: 1,
            token_type: kind,
        },
        next,
    }
}

/// A diagnostic for `len_char` characters at `p`.
pub open spec fn failed(src: Seq<Seq<char>>, p: Position, len_char: int, message: Seq<char>) -> Scan {
    Scan::Failed(
        ParsingErrorView {
            position: TokenView {
                begin_line: p.line,
                begin_char: p.column,
                len_char,
                len_line: 1,
                token_type: TokenTypeView::Unknown,
            },
            message,
            data: src,
        },
    )
}

/// The literal that starts with the digit at `p`.
///
/// The longest run of digits is one literal. Made of binary digits only, it
/// is a bit vector. A run that starts with `0` must be one: its first other
/// digit is an error, reported for the digits before it. Any other run is a
/// number, and an error if the number does not fit the integer type.
pub open spec fn scan_number(src: Seq<Seq<char>>, p: Position) -> Scan {
    let line = src[p.line];
    let end = run_end(line, p.column, CharClass::Digit);
    let bits_end = run_end(line, p.column, CharClass::Bit);
    let digits = line.subrange(p.column, end);
    let next = Position { line: p.line, column: end };
    if bits_end == end {
        found(p, end - p.column, TokenTypeView::BoolTable(bits_of(digits)), next)
    } else if line[p.column] == '0' {
        failed(src, p, bits_end - p.column, expected_bit(line[bits_end]))
    } else if decimal_value(digits) <= isize::MAX {
        found(p, end - p.column, TokenTypeView::Number(decimal_value(digits)), next)
    } else {
        failed(src, p, end - p.column, number_too_large(digits))
    }
}

/// The word that starts with the letter at `p`: the longest run of letters,
/// digits and underscores.
pub open spec fn scan_word(src: Seq<Seq<char>>, p: Position) -> Scan {
    let line = src[p.line];
    let end = run_end(line, p.column, CharClass::Word);
    found(
        p,
        end - p.column,
        word_kind(line.subrange(p.column, end)),
        Position { line: p.line, column: end },
    )
}

/// The arrow that starts with the dash at `p`; an error at the character
/// after the dash if that is not `>`.
pub open spec fn scan_arrow(src: Seq<Seq<char>>, p: Position) -> Scan {
    let head = step(src, p);
    if char_at(src, head) == '>' {
        found(p, 2, TokenTypeView::Arrow, step(src, head))
    } else {
        failed(src, head, 2, expected_arrow_head(char_at(src, head)))
    }
}

/// The position of the slash that closes a block comment whose body is read
/// from `from` on: the first slash that directly follows a star of the body.
/// `after_star` says whether the character before `from` is such a star.
pub open spec fn closing_slash(src: Seq<Seq<char>>, from: Position, after_star: bool) -> Option<
    Position,
>
    decreases src.len() - from.line, src[from.line].len() - from.column,
{
    if !in_source(src, from) {
        None
    } else if after_star && char_at(src, from) == '/' {
        Some(from)
    } else {
        closing_slash(src, step(src, from), char_at(src, from) == '*')
    }
}

/// The characters from `from` up to, not including, `to`, line breaks
/// included.
pub open spec fn text_between(src: Seq<Seq<char>>, from: Position, to: Position) -> Seq<char>
    decreases to.line - from.line,
{
    if to.line <= from.line {
        src[from.line].subrange(from.column, to.column)
    } else {
        text_between(
            src,
            from,
            Position { line: to.line - 1, column: src[to.line - 1].len() as int },
        ) + src[to.line].subrange(0, to.column)
    }
}

/// The comment that starts with the slash at `p`.
///
/// `//` opens a line comment, which runs up to the line break that ends the
/// line and leaves that line break to the next token. `/*` opens a block
/// comment, which runs through its closing `*/` and may span lines; without
/// a closing `*/` it is an error at the last character of the source. A
/// slash followed by anything else is an error at that character.
pub open spec fn scan_comment(src: Seq<Seq<char>>, p: Position) -> Scan {
    let line = src[p.line];
    let second = step(src, p);
    let c = char_at(src, second);
    if c == '/' {
        let stop = line.len() - 1;
        found(
            p,
            stop - p.column,
            TokenTypeView::Ignore(Some(line.subrange(p.column, stop))),
            Position { line: p.line, column: stop },
        )
    } else if c == '*' {
        match closing_slash(src, step(src, second), false) {
            Some(close) => {
                let next = step(src, close);
                let text = text_between(src, p, next);
                Scan::Found {
                    token: TokenView {
                        begin_line: p.line,
                        begin_char: p.column,
                        len_char: text.len() as int,
                        len_line: close.line - p.line + 1,
                        token_type: TokenTypeView::Ignore(Some(text)),
                    },
                    next,
                }
            },
            None => failed(src, last_of(src), 1, expected_comment(char_at(src, last_of(src)))),
        }
    } else {
        failed(src, second, 1, expected_comment(c))
    }
}

/// The token that starts at `p`.
///
/// The first character decides: a symbol is a token by itself, a digit
/// starts a literal, a letter a word, a dash an arrow and a slash a comment.
/// Any other character is an error.
pub open spec fn scan_at(src: Seq<Seq<char>>, p: Position) -> Scan {
    let c = char_at(src, p);
    match symbol_kind(c) {
        Some(kind) => found(p, 1, kind, step(src, p)),
        None => {
            if is_digit(c) {
                scan_number(src, p)
            } else if is_letter(c) {
                scan_word(src, p)
            } else if c == '-' {
                scan_arrow(src, p)
            } else if c == '/' {
                scan_comment(src, p)
            } else {
                failed(src, p, 1, unexpected_character(c))
            }
        },
    }
}

/// The tokens from `p` to the end of the source, or the first error.
pub open spec fn lex_from(src: Seq<Seq<char>>, p: Position) -> Result<
    Seq<TokenView>,
    ParsingErrorView,
>
    decreases src.len() - p.line, src[p.line].len() - p.column,
    when valid_source(src)
    via lex_from_terminates
{
    if !in_source(src, p) {
        Ok(Seq::empty())
    } else {
        match scan_at(src, p) {
            Scan::Failed(error) => Err(error),
            Scan::Found { token, next } => match lex_from(src, next) {
                Ok(rest) => Ok(seq![token] + rest),
                Err(error) => Err(error),
            },
        }
    }
}

#[via_fn]
proof fn lex_from_terminates(src: Seq<Seq<char>>, p: Position) {
    if in_source(src, p) {
        lemma_scan_advances(src, p);
    }
}

/// The outcome of a pass that has produced `done` and goes on as `rest`.
pub open spec fn continued(
    done: Seq<TokenView>,
    rest: Result<Seq<TokenView>, ParsingErrorView>,
) -> Result<Seq<TokenView>, ParsingErrorView> {
    match rest {
        Ok(tokens) => Ok(done + tokens),
        Err(error) => Err(error),
    }
}

/// The tokens of a whole source, or its first error.
pub open spec fn lex_source(src: Seq<Seq<char>>) -> Result<Seq<TokenView>, ParsingErrorView> {
    lex_from(src, start())
}

/// A run ends at or after its start and within the line; it holds
/// characters of its class only and is followed by none.
pub proof fn lemma_run_end(line: Seq<char>, from: int, class: CharClass)
    requires
        0 <= from <= line.len(),
    ensures
        from <= run_end(line, from, class) <= line.len(),
        forall|i: int| from <= i < run_end(line, from, class) ==> in_class(class, #[trigger] line[i]),
        run_end(line, from, class) < line.len() ==> !in_class(
            class,
            line[run_end(line, from, class)],
        ),
    decreases line.len() - from,
{
    if from < line.len() && in_class(class, line[from]) {
        lemma_run_end(line, from + 1, class);
    }
}

/// A closing slash lies in the source, at or after the place where the
/// search began, and at that place only if a star comes right before it.
pub proof fn lemma_closing_slash(src: Seq<Seq<char>>, from: Position, after_star: bool)
    requires
        closing_slash(src, from, after_star) is Some,
    ensures
        in_source(src, closing_slash(src, from, after_star)->Some_0),
        char_at(src, closing_slash(src, from, after_star)->Some_0) == '/',
        closing_slash(src, from, after_star)->Some_0 == from || after(
            from,
            closing_slash(src, from, after_star)->Some_0,
        ),
        closing_slash(src, from, after_star)->Some_0 == from ==> after_star,
    decreases src.len() - from.line, src[from.line].len() - from.column,
{
    if in_source(src, from) && !(after_star && char_at(src, from) == '/') {
        lemma_closing_slash(src, step(src, from), char_at(src, from) == '*');
    }
}

/// Scanning a token moves forward, to a character of the source or to its
/// end.
pub proof fn lemma_scan_advances(src: Seq<Seq<char>>, p: Position)
    requires
        valid_source(src),
        in_source(src, p),
    ensures
        (scan_at(src, p) matches Scan::Found { next, .. } ==> after(p, next) && reachable(
            src,
            next,
        )),
{
    let line = src[p.line];
    lemma_run_end(line, p.column + 1, CharClass::Digit);
    lemma_run_end(line, p.column + 1, CharClass::Word);
    let body = step(src, step(src, p));
    if closing_slash(src, body, false) is Some {
        lemma_closing_slash(src, body, false);
    }
}

/// A pass from `p` is the token at `p` followed by a pass from behind it,
/// or the error at `p`.
pub proof fn lemma_lex_step(src: Seq<Seq<char>>, p: Position, done: Seq<TokenView>)
    requires
        valid_source(src),
        in_source(src, p),
    ensures
        (match scan_at(src, p) {
            Scan::Found { token, next } => continued(done, lex_from(src, p)) == continued(
                done.push(token),
                lex_from(src, next),
            ),
            Scan::Failed(error) => lex_from(src, p) == Err::<Seq<TokenView>, ParsingErrorView>(
                error,
            ),
        }),
{
    match scan_at(src, p) {
        Scan::Found { token, next } => {
            match lex_from(src, next) {
                Ok(rest) => {
                    assert(done + (seq![token] + rest) =~= done.push(token) + rest);
                },
                Err(_) => {},
            }
        },
        Scan::Failed(_) => {},
    }
}

/// The text up to and including the character at `q` is the text up to `q`
/// with that character appended.
pub proof fn lemma_text_push(src: Seq<Seq<char>>, p: Position, q: Position)
    requires
        in_source(src, q),
        p.line < q.line || (p.line == q.line && 0 <= p.column <= q.column),
    ensures
        text_between(src, p, Position { line: q.line, column: q.column + 1 }) == text_between(
            src,
            p,
            q,
        ).push(char_at(src, q)),
{
}

/// The text up to the start of a line is the text up to the end of the line
/// before it.
pub proof fn lemma_text_next_line(src: Seq<Seq<char>>, p: Position, line: int)
    requires
        p.line <= line,
    ensures
        text_between(src, p, Position { line: line + 1, column: 0 }) == text_between(
            src,
            p,
            Position { line, column: src[line].len() as int },
        ),
{
}

} // verus!
