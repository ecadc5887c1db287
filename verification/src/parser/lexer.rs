//! The scanner: a cursor over the source lines and the recognisers that
//! turn the text under it into tokens.

use vstd::prelude::*;
use vstd::string::*;
use crate::constants::{AND, NOT, OR, XOR};
use crate::parser::error::ParsingError;
use crate::parser::grammar::{
    bits_of, char_at, closing_slash, continued, end_of, failed, found, in_class, in_source,
    is_digit, is_letter, last_of, lemma_lex_step, lemma_run_end, lemma_scan_advances,
    lemma_text_push, lex_from, run_end, scan_arrow, scan_comment, scan_number, scan_word, start,
    step, symbol_kind, text_between, valid_line, valid_source, word_kind, CharClass, Position,
    Scan,
};
use crate::parser::text::{cite, parse_decimal, same_text};
use crate::parser::token::{clone_tokens, Token, TokenType, TokenView};

verus! {

/// A single-use scanner over borrowed source lines.
///
/// The cursor rests on one character of the source. Once the last character
/// has been passed the scanner is finished; the cursor then stays where it
/// was.
pub struct Lexer<'a> {
    data: &'a Vec<String>,
    line_index: usize,
    char_index: usize,
    current_line: &'a String,
    line_len: usize,
    current_char: char,
    tokens: Vec<Token>,
    eof: bool,
    eol: bool,
}

/// What a recogniser that applies leaves behind: for a token, the token
/// appended and the scanner moved behind it; for an error, that error.
pub open spec fn scanned(
    scan: Scan,
    emitted_before: Seq<TokenView>,
    emitted_after: Seq<TokenView>,
    position_after: Position,
    result: Result<bool, ParsingError>,
) -> bool {
    match scan {
        Scan::Found { token, next } => {
            &&& result == Ok::<bool, ParsingError>(true)
            &&& emitted_after == emitted_before.push(token)
            &&& position_after == next
        },
        Scan::Failed(error) => result is Err && result->Err_0@ == error,
    }
}

/// The token kind of a character that is a token by itself.
fn symbol(c: char) -> (kind: Option<TokenType>)
    ensures
        (match kind {
            Some(k) => symbol_kind(c) == Some(k@),
            None => symbol_kind(c) is None,
        }),
{
    if c == AND {
        Some(TokenType::And)
    } else if c == OR {
        Some(TokenType::Or)
    } else if c == XOR {
        Some(TokenType::Xor)
    } else if c == NOT {
        Some(TokenType::Not)
    } else if c == '(' {
        Some(TokenType::RoundOpen)
    } else if c == ')' {
        Some(TokenType::RoundClose)
    } else if c == '{' {
        Some(TokenType::CurlyOpen)
    } else if c == '}' {
        Some(TokenType::CurlyClose)
    } else if c == '[' {
        Some(TokenType::SquareOpen)
    } else if c == ']' {
        Some(TokenType::SquareClose)
    } else if c == ',' {
        Some(TokenType::Comma)
    } else if c == ';' {
        Some(TokenType::Semicolon)
    } else if c == '=' {
        Some(TokenType::Equals)
    } else if c == '.' {
        Some(TokenType::Dot)
    } else if c == ' ' || c == '\t' || c == '\n' {
        Some(TokenType::Ignore(None))
    } else {
        None
    }
}

/// The kind of the word `name`.
fn keyword_or_identifier(name: &str) -> (kind: TokenType)
    ensures
        kind@ == word_kind(name@),
{
    if same_text(name, "pin") {
        TokenType::Pin
    } else if same_text(name, "table") {
        TokenType::Table
    } else if same_text(name, "count") {
        TokenType::Count
    } else if same_text(name, "fill") {
        TokenType::Fill
    } else if same_text(name, "dff") {
        TokenType::Dff
    } else {
        TokenType::Identifier(String::from_str(name))
    }
}

/// Whether `data` is a source the scanner accepts: at least one line, each
/// line non-empty and ended by a line break.
pub fn source_is_valid(data: &Vec<String>) -> (valid: bool)
    ensures
        valid == valid_source(data.deep_view()),
{
    if data.len() == 0 {
        return false;
    }
    let mut i: usize = 0;
    while i < data.len()
        invariant
            i <= data.len(),
            forall|j: int| 0 <= j < i ==> valid_line(#[trigger] data.deep_view()[j]),
        decreases data.len() - i,
    {
        let line = data[i].as_str();
        let n = line.unicode_len();
        if n == 0 || line.get_char(n - 1) != '\n' {
            assert(!valid_line(data.deep_view()[i as int]));
            return false;
        }
        i += 1;
    }
    true
}

impl<'a> Lexer<'a> {
    /// The source lines, as sequences of characters.
    pub closed spec fn source(&self) -> Seq<Seq<char>> {
        self.data.deep_view()
    }

    /// The tokens recognised so far.
    pub closed spec fn emitted(&self) -> Seq<TokenView> {
        self.tokens.deep_view()
    }

    /// The character the cursor rests on.
    pub closed spec fn cursor(&self) -> Position {
        Position { line: self.line_index as int, column: self.char_index as int }
    }

    /// Whether the last character has been passed.
    pub closed spec fn finished(&self) -> bool {
        self.eof
    }

    /// Whether the cached line, character and end-of-line flag are those of
    /// the cursor.
    pub closed spec fn in_step(&self) -> bool {
        &&& self.current_line@ == self.source()[self.line_index as int]
        &&& self.line_len == self.source()[self.line_index as int].len()
        &&& self.current_char == self.source()[self.line_index as int][self.char_index as int]
        &&& self.eol == (self.char_index + 1 == self.line_len)
    }

    /// Where scanning resumes: at the cursor, or at the end of the source
    /// once the scanner is finished.
    pub open spec fn position(&self) -> Position {
        if self.finished() {
            end_of(self.source())
        } else {
            self.cursor()
        }
    }

    /// The character under the cursor.
    pub open spec fn current(&self) -> char {
        char_at(self.source(), self.cursor())
    }

    /// The invariant of a scanner: the source is valid, the cursor is on one
    /// of its characters, and a finished scanner rests on the last one.
    pub open spec fn wf(&self) -> bool {
        &&& valid_source(self.source())
        &&& in_source(self.source(), self.cursor())
        &&& self.finished() ==> self.cursor() == last_of(self.source())
        &&& self.in_step()
    }

    /// A scanner at the first character of `data`, with no token yet.
    pub fn new(data: &'a Vec<String>) -> (lexer: Self)
        requires
            valid_source(data.deep_view()),
        ensures
            lexer.wf(),
            lexer.source() == data.deep_view(),
            lexer.position() == start(),
            lexer.emitted() == Seq::<TokenView>::empty(),
    {
        let current_line = &data[0];
        assert(valid_line(data.deep_view()[0]));
        let line_len = current_line.as_str().unicode_len();
        let current_char = current_line.as_str().get_char(0);
        let lexer = Lexer {
            data,
            line_index: 0,
            char_index: 0,
            current_line,
            line_len,
            current_char,
            tokens: Vec::new(),
            eof: false,
            eol: line_len == 1,
        };
        lexer
    }

    /// Moves the cursor one character on, to the next line after the last
    /// character of a line; after the last character of the source the
    /// scanner is finished.
    pub fn next(&mut self)
        requires
            old(self).wf(),
            !old(self).finished(),
        ensures
            final(self).wf(),
            final(self).source() == old(self).source(),
            final(self).emitted() == old(self).emitted(),
            final(self).position() == step(old(self).source(), old(self).position()),
    {
        if self.eol {
            if self.data.len() - 1 == self.line_index {
                self.eof = true;
            } else {
                let data: &'a Vec<String> = self.data;
                self.line_index += 1;
                self.char_index = 0;
                assert(valid_line(data.deep_view()[self.line_index as int]));
                self.current_line = &data[self.line_index];
                self.line_len = self.current_line.as_str().unicode_len();
                self.current_char = self.current_line.as_str().get_char(0);
                self.eol = self.line_len == 1;
            }
            return ;
        }
        self.char_index += 1;
        self.current_char = self.current_line.as_str().get_char(self.char_index);
        self.eol = self.char_index + 1 == self.line_len;
    }

    /// A diagnostic for `len_char` characters at the given place.
    fn error_at(&self, line: usize, column: usize, len_char: usize, message: String) -> (error:
        ParsingError)
        ensures
            Scan::Failed(error@) == failed(
                self.source(),
                Position { line: line as int, column: column as int },
                len_char as int,
                message@,
            ),
    {
        let data = self.data.clone();
        ParsingError::from_token(
            Token {
                begin_line: line,
                begin_char: column,
                len_char,
                len_line: 1,
                token_type: TokenType::Unknown,
            },
            message,
            data,
        )
    }

    /// Appends a token.
    fn emit(&mut self, token: Token)
        ensures
            final(self).emitted() == old(self).emitted().push(token@),
            final(self).source() == old(self).source(),
            final(self).cursor() == old(self).cursor(),
            final(self).finished() == old(self).finished(),
            final(self).in_step() == old(self).in_step(),
    {
        self.tokens.push(token);
    }

    /// Appends a token that lies on the line of the cursor.
    fn emit_here(&mut self, begin_char: usize, len_char: usize, token_type: TokenType)
        ensures
            final(self).emitted() == old(self).emitted().push(
                TokenView {
                    begin_line: old(self).cursor().line,
                    begin_char: begin_char as int,
                    len_char: len_char as int,
                    len_line: 1,
                    token_type: token_type@,
                },
            ),
            final(self).source() == old(self).source(),
            final(self).cursor() == old(self).cursor(),
            final(self).finished() == old(self).finished(),
            final(self).in_step() == old(self).in_step(),
    {
        let begin_line = self.line_index;
        self.emit(Token { begin_line, begin_char, len_char, len_line: 1, token_type });
    }

    /// Recognises a character that is a token by itself: an operator, a
    /// bracket, a punctuation mark, or a blank.
    pub fn lex_char(&mut self) -> (result: Result<bool, ParsingError>)
        requires
            old(self).wf(),
            !old(self).finished(),
        ensures
            final(self).wf(),
            final(self).source() == old(self).source(),
            (match symbol_kind(old(self).current()) {
                Some(kind) => scanned(
                    found(
                        old(self).position(),
                        1,
                        kind,
                        step(old(self).source(), old(self).position()),
                    ),
                    old(self).emitted(),
                    final(self).emitted(),
                    final(self).position(),
                    result,
                ),
                None => result == Ok::<bool, ParsingError>(false) && *final(self) == *old(self),
            }),
    {
        match symbol(self.current_char) {
            Some(token_type) => {
                self.emit_here(self.char_index, 1, token_type);
                self.next();
                Ok(true)
            },
            None => Ok(false),
        }
    }

    /// The text from `begin` up to the cursor, on the line of the cursor.
    fn text_since(&self, begin: usize) -> (text: &'a str)
        requires
            self.wf(),
            begin <= self.cursor().column,
        ensures
            text@ == self.source()[self.cursor().line].subrange(
                begin as int,
                self.cursor().column,
            ),
    {
        self.current_line.as_str().substring_char(begin, self.char_index)
    }

    /// The character under the cursor, as a text.
    fn current_text(&self) -> (text: &'a str)
        requires
            self.wf(),
        ensures
            text@ == seq![self.current()],
    {
        let text = self.current_line.as_str().substring_char(self.char_index, self.char_index + 1);
        text
    }

    /// Recognises a literal: a bit vector or a number.
    pub fn lex_num(&mut self) -> (result: Result<bool, ParsingError>)
        requires
            old(self).wf(),
            !old(self).finished(),
        ensures
            final(self).wf(),
            final(self).source() == old(self).source(),
            (if is_digit(old(self).current()) {
                scanned(
                    scan_number(old(self).source(), old(self).position()),
                    old(self).emitted(),
                    final(self).emitted(),
                    final(self).position(),
                    result,
                )
            } else {
                result == Ok::<bool, ParsingError>(false) && *final(self) == *old(self)
            }),
    {
        let begin_char = self.char_index;
        let first_char = self.current_char;
        if !Self::is_digit(first_char) {
            return Ok(false);
        }
        let ghost line = self.source()[self.line_index as int];
        let ghost begin = begin_char as int;
        let ghost end = run_end(line, begin, CharClass::Digit);
        let ghost bits_end = run_end(line, begin, CharClass::Bit);
        let begin_0 = first_char == '0';
        let mut is_bool = first_char == '0' || first_char == '1';
        let mut bits: Vec<bool> = Vec::new();
        bits.push(first_char == '1');
        self.next();
        loop
            invariant
                self.wf(),
                !self.finished(),
                self.source() == old(self).source(),
                self.emitted() == old(self).emitted(),
                self.cursor().line == old(self).cursor().line,
                line == self.source()[self.cursor().line],
                valid_line(line),
                begin == begin_char,
                !old(self).finished(),
                old(self).cursor().column == begin,
                is_digit(line[begin]),
                0 <= begin < self.cursor().column < line.len(),
                end == run_end(line, begin, CharClass::Digit),
                bits_end == run_end(line, begin, CharClass::Bit),
                run_end(line, self.cursor().column, CharClass::Digit) == end,
                is_bool ==> run_end(line, self.cursor().column, CharClass::Bit) == bits_end,
                !is_bool ==> bits_end < self.cursor().column && !begin_0,
                begin_0 == (line[begin] == '0'),
                bits@ == bits_of(line.subrange(begin, self.cursor().column)),
            ensures
                !is_digit(self.current()),
            decreases line.len() - self.cursor().column,
        {
            if self.eol {
                break ;
            }
            let c = self.current_char;
            if Self::is_digit(c) {
                proof {
                    lemma_run_end(line, self.cursor().column + 1, CharClass::Digit);
                }
                if !(c == '1' || c == '0') {
                    if begin_0 {
                        let message = cite("expectet <0, 1> got <", self.current_text());
                        let error = self.error_at(
                            self.line_index,
                            begin_char,
                            self.char_index - begin_char,
                            message,
                        );
                        return Err(error);
                    }
                    is_bool = false;
                }
                bits.push(c == '1');
                self.next();
            } else {
                break ;
            }
        }
        let len_char = self.char_index - begin_char;
        proof {
            lemma_run_end(line, begin, CharClass::Digit);
        }
        if is_bool {
            self.emit_here(begin_char, len_char, TokenType::BoolTable(bits));
            Ok(true)
        } else {
            let text = self.text_since(begin_char);
            match parse_decimal(text) {
                Some(value) => {
                    self.emit_here(begin_char, len_char, TokenType::Number(value));
                    Ok(true)
                },
                None => {
                    let message = cite(
                        "parsing error while parsing number expectet <[0-9]> got <",
                        text,
                    );
                    Err(self.error_at(self.line_index, begin_char, len_char, message))
                },
            }
        }
    }

    /// Recognises a word: a reserved word or an identifier.
    pub fn lex_identifier(&mut self) -> (result: Result<bool, ParsingError>)
        requires
            old(self).wf(),
            !old(self).finished(),
        ensures
            final(self).wf(),
            final(self).source() == old(self).source(),
            (if is_letter(old(self).current()) {
                scanned(
                    scan_word(old(self).source(), old(self).position()),
                    old(self).emitted(),
                    final(self).emitted(),
                    final(self).position(),
                    result,
                )
            } else {
                result == Ok::<bool, ParsingError>(false) && *final(self) == *old(self)
            }),
    {
        if !Self::is_letter(self.current_char) {
            return Ok(false);
        }
        let begin_char = self.char_index;
        let ghost line = self.source()[self.line_index as int];
        let ghost end = run_end(line, begin_char as int, CharClass::Word);
        loop
            invariant
                self.wf(),
                !self.finished(),
                self.source() == old(self).source(),
                self.emitted() == old(self).emitted(),
                self.cursor().line == old(self).cursor().line,
                line == self.source()[self.cursor().line],
                valid_line(line),
                begin_char <= self.cursor().column < line.len(),
                run_end(line, self.cursor().column, CharClass::Word) == end,
            ensures
                !in_class(CharClass::Word, self.current()),
            decreases line.len() - self.cursor().column,
        {
            if self.eol {
                break ;
            }
            let c = self.current_char;
            if Self::is_letter(c) || Self::is_digit(c) || c == '_' {
                self.next();
            } else {
                break ;
            }
        }
        let name = self.text_since(begin_char);
        let token_type = keyword_or_identifier(name);
        self.emit_here(begin_char, self.char_index - begin_char, token_type);
        Ok(true)
    }

    /// Recognises the arrow `->`.
    pub fn lex_arrow(&mut self) -> (result: Result<bool, ParsingError>)
        requires
            old(self).wf(),
            !old(self).finished(),
        ensures
            final(self).wf(),
            final(self).source() == old(self).source(),
            (if old(self).current() == '-' {
                scanned(
                    scan_arrow(old(self).source(), old(self).position()),
                    old(self).emitted(),
                    final(self).emitted(),
                    final(self).position(),
                    result,
                )
            } else {
                result == Ok::<bool, ParsingError>(false) && *final(self) == *old(self)
            }),
    {
        if self.current_char == '-' {
            self.next();
            if self.current_char == '>' {
                self.emit_here(self.char_index - 1, 2, TokenType::Arrow);
                self.next();
                Ok(true)
            } else {
                let message = cite("unexpected char expected <>> got <", self.current_text());
                Err(self.error_at(self.line_index, self.char_index, 2, message))
            }
        } else {
            Ok(false)
        }
    }

    /// Recognises a comment: `//` up to the end of the line, or `/*` through
    /// the closing `*/`.
    pub fn lex_comment(&mut self) -> (result: Result<bool, ParsingError>)
        requires
            old(self).wf(),
            !old(self).finished(),
        ensures
            final(self).wf(),
            final(self).source() == old(self).source(),
            (if old(self).current() == '/' {
                scanned(
                    scan_comment(old(self).source(), old(self).position()),
                    old(self).emitted(),
                    final(self).emitted(),
                    final(self).position(),
                    result,
                )
            } else {
                result == Ok::<bool, ParsingError>(false) && *final(self) == *old(self)
            }),
    {
        if self.current_char != '/' {
            return Ok(false);
        }
        let begin_line = self.line_index;
        let begin_char = self.char_index;
        let ghost src = self.source();
        let ghost begin = self.cursor();
        let mut comment = String::new();
        comment.append(self.current_text());
        self.next();
        let is_multiline = if self.current_char == '*' {
            true
        } else if self.current_char == '/' {
            false
        } else {
            let message = cite(
                "unexpected character expected <*, /> got <",
                self.current_text(),
            );
            return Err(self.error_at(self.line_index, self.char_index, 1, message));
        };
        comment.append(self.current_text());
        self.next();
        if is_multiline {
            let ghost body = self.position();
            let mut last_star = false;
            loop
                invariant_except_break
                    closing_slash(src, self.position(), last_star) == closing_slash(
                        src,
                        body,
                        false,
                    ),
                    !self.finished() ==> comment@ == text_between(src, begin, self.cursor()),
                invariant
                    self.wf(),
                    self.source() == src,
                    src == old(self).source(),
                    self.emitted() == old(self).emitted(),
                    begin == old(self).position(),
                    old(self).current() == '/',
                    char_at(src, step(src, begin)) == '*',
                    body == step(src, step(src, begin)),
                    in_source(src, begin),
                    begin.line == begin_line,
                    begin.column == begin_char,
                    begin.line < self.cursor().line || (begin.line == self.cursor().line
                        && begin.column < self.cursor().column),
                ensures
                    closing_slash(src, body, false) is Some,
                    self.position() == step(src, closing_slash(src, body, false)->Some_0),
                    self.position().line == closing_slash(src, body, false)->Some_0.line,
                    !self.finished(),
                    begin.line <= self.cursor().line,
                    comment@ == text_between(src, begin, self.position()),
                decreases
                        src.len() - self.position().line,
                        src[self.position().line].len() - self.position().column,
            {
                if self.eof {
                    let message = cite(
                        "unexpected character expected <*, /> got <",
                        self.current_text(),
                    );
                    return Err(self.error_at(self.line_index, self.char_index, 1, message));
                }
                let ghost here = self.cursor();
                proof {
                    lemma_text_push(src, begin, here);
                }
                if self.current_char == '/' && last_star {
                    comment.append(self.current_text());
                    self.next();
                    break ;
                }
                last_star = self.current_char == '*';
                comment.append(self.current_text());
                self.next();
            }
        } else {
            loop
                invariant
                    self.wf(),
                    !self.finished(),
                    self.source() == src,
                    self.emitted() == old(self).emitted(),
                    self.cursor().line == begin.line,
                    in_source(src, begin),
                    begin.column < self.cursor().column < src[begin.line].len(),
                    valid_line(src[begin.line]),
                    comment@ == src[begin.line].subrange(begin.column, self.cursor().column),
                ensures
                    self.cursor().column == src[begin.line].len() - 1,
                decreases src[begin.line].len() - self.cursor().column,
            {
                if self.eol {
                    break ;
                }
                comment.append(self.current_text());
                self.next();
            }
        }
        let len_char = comment.as_str().unicode_len();
        assert(begin_line <= self.line_index < self.data.len());
        let len_line = self.line_index - begin_line + 1;
        self.emit(
            Token {
                begin_line,
                begin_char,
                len_char,
                len_line,
                token_type: TokenType::Ignore(Some(comment)),
            },
        );
        Ok(true)
    }

    /// Runs the pass: recognises token after token from the cursor to the
    /// end of the source and returns all tokens, blanks and comments
    /// included, or the first error.
    pub fn lex(&mut self) -> (result: Result<Vec<Token>, ParsingError>)
        requires
            old(self).wf(),
        ensures
            final(self).wf(),
            final(self).source() == old(self).source(),
            (match lex_from(old(self).source(), old(self).position()) {
                Ok(rest) => {
                    &&& result is Ok
                    &&& result->Ok_0.deep_view() == old(self).emitted() + rest
                    &&& old(self).emitted().len() == 0 ==> result->Ok_0.deep_view() == rest
                    &&& final(self).emitted() == old(self).emitted() + rest
                    &&& final(self).finished()
                },
                Err(error) => result is Err && result->Err_0@ == error,
            }),
    {
        let ghost src = self.source();
        let ghost goal = continued(self.emitted(), lex_from(src, self.position()));
        while !self.eof
            invariant
                self.wf(),
                self.source() == src,
                src == old(self).source(),
                goal == continued(old(self).emitted(), lex_from(src, old(self).position())),
                continued(self.emitted(), lex_from(src, self.position())) == goal,
            decreases
                    src.len() - self.position().line,
                    src[self.position().line].len() - self.position().column,
        {
            proof {
                lemma_scan_advances(src, self.position());
                lemma_lex_step(src, self.position(), self.emitted());
            }
            if self.lex_char()? {
                continue ;
            }
            if self.lex_num()? {
                continue ;
            }
            if self.lex_identifier()? {
                continue ;
            }
            if self.lex_arrow()? {
                continue ;
            }
            if self.lex_comment()? {
                continue ;
            }
            let message = cite("unexpected character <", self.current_text());
            return Err(self.error_at(self.line_index, self.char_index, 1, message));
        }
        Ok(clone_tokens(&self.tokens))
    }

    /// The index of the line the cursor is on.
    pub fn line_index(&self) -> (index: usize)
        ensures
            index == self.cursor().line,
    {
        self.line_index
    }

    /// The index, within its line, of the character the cursor is on.
    pub fn char_index(&self) -> (index: usize)
        ensures
            index == self.cursor().column,
    {
        self.char_index
    }

    /// The line the cursor is on.
    pub fn current_line(&self) -> (line: &'a String)
        requires
            self.wf(),
        ensures
            line@ == self.source()[self.cursor().line],
    {
        self.current_line
    }

    /// The character the cursor is on.
    pub fn current_char(&self) -> (c: char)
        requires
            self.wf(),
        ensures
            c == self.current(),
    {
        self.current_char
    }

    /// Whether the cursor is on the last character of its line.
    pub fn eol(&self) -> (eol: bool)
        requires
            self.wf(),
        ensures
            eol == (self.cursor().column == self.source()[self.cursor().line].len() - 1),
    {
        self.eol
    }

    /// Whether the last character of the source has been passed.
    pub fn eof(&self) -> (eof: bool)
        ensures
            eof == self.finished(),
    {
        self.eof
    }

    /// Whether `c` is a letter of the fixed alphabet `A` to `Z`, `a` to `z`.
    pub fn is_letter(c: char) -> (letter: bool)
        ensures
            letter == is_letter(c),
    {
        (c >= 'a' && c <= 'z') || (c >= 'A' && c <= 'Z')
    }

    /// Whether `c` is a decimal digit.
    pub fn is_digit(c: char) -> (digit: bool)
        ensures
            digit == is_digit(c),
    {
        c >= '0' && c <= '9'
    }
}

} // verus!
