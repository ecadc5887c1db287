//! Properties of the token grammar that hold for every source.

use vstd::prelude::*;
use crate::parser::grammar::{
    after, bits_of, char_at, closing_slash, decimal_value, end_of, expected_arrow_head,
    expected_bit, failed, found, in_class, in_source, is_digit, is_letter, lemma_closing_slash,
    lemma_run_end, lemma_scan_advances, lemma_text_next_line, lex_from, lex_source, reachable,
    run_end, scan_at, start, step, text_between, valid_source, word_kind, CharClass, Position,
    Scan,
};
use crate::parser::token::{TokenTypeView, TokenView};

verus! {

/// Whether `c` is a blank: a space, a tab or a line break.
pub open spec fn is_blank(c: char) -> bool {
    c == ' ' || c == '\t' || c == '\n'
}

/// Whether every character of `src` is a blank.
pub open spec fn blank_source(src: Seq<Seq<char>>) -> bool {
    forall|i: int, j: int|
        0 <= i < src.len() && 0 <= j < src[i].len() ==> is_blank(#[trigger] src[i][j])
}

/// Whether every token of `tokens` is whitespace.
pub open spec fn all_whitespace(tokens: Seq<TokenView>) -> bool {
    forall|k: int|
        0 <= k < tokens.len() ==> (#[trigger] tokens[k]).token_type == TokenTypeView::Ignore(None)
}

/// Whether `name` is spelt like one of the five reserved words.
pub open spec fn is_reserved(name: Seq<char>) -> bool {
    name == "pin"@ || name == "table"@ || name == "count"@ || name == "fill"@ || name == "dff"@
}

/// A run of `class` characters from `from` to `end` that no character of the
/// class follows is the longest run that starts at `from`.
pub proof fn lemma_run_end_is(line: Seq<char>, from: int, end: int, class: CharClass)
    requires
        0 <= from <= end <= line.len(),
        forall|i: int| from <= i < end ==> in_class(class, #[trigger] line[i]),
        end == line.len() || !in_class(class, line[end]),
    ensures
        run_end(line, from, class) == end,
    decreases end - from,
{
    if from < end {
        lemma_run_end_is(line, from + 1, end, class);
    }
}

/// Lexing a blank source from `p` succeeds with whitespace tokens only.
proof fn lemma_blank_from(src: Seq<Seq<char>>, p: Position)
    requires
        valid_source(src),
        blank_source(src),
        reachable(src, p),
    ensures
        lex_from(src, p) is Ok,
        all_whitespace(lex_from(src, p)->Ok_0),
    decreases src.len() - p.line, src[p.line].len() - p.column,
{
    if in_source(src, p) {
        let next = step(src, p);
        lemma_blank_from(src, next);
    }
}

/// A source made of blanks and line breaks only lexes to whitespace tokens
/// only: no other kind of token appears, and no error.
pub proof fn law_blank_source(src: Seq<Seq<char>>)
    requires
        valid_source(src),
        blank_source(src),
    ensures
        lex_source(src) is Ok,
        all_whitespace(lex_source(src)->Ok_0),
{
    lemma_blank_from(src, start());
}

/// A longest run of digits that holds only `0` and `1` is one bit-vector
/// token, whose bits are the digits from left to right.
pub proof fn law_bit_vector(src: Seq<Seq<char>>, p: Position, end: int)
    requires
        valid_source(src),
        in_source(src, p),
        p.column < end <= src[p.line].len(),
        forall|i: int| p.column <= i < end ==> in_class(CharClass::Bit, #[trigger] src[p.line][i]),
        end == src[p.line].len() || !is_digit(src[p.line][end]),
    ensures
        scan_at(src, p) == found(
            p,
            end - p.column,
            TokenTypeView::BoolTable(bits_of(src[p.line].subrange(p.column, end))),
            Position { line: p.line, column: end },
        ),
{
    let line = src[p.line];
    lemma_run_end_is(line, p.column, end, CharClass::Digit);
    lemma_run_end_is(line, p.column, end, CharClass::Bit);
}

/// A run of digits that starts with `0` and holds a digit other than `0` and
/// `1` is rejected: the error spans the binary digits before the first such
/// digit and cites it, and lexing from there fails with that error.
pub proof fn law_leading_zero(src: Seq<Seq<char>>, p: Position, at: int)
    requires
        valid_source(src),
        in_source(src, p),
        char_at(src, p) == '0',
        p.column < at < src[p.line].len(),
        forall|i: int| p.column <= i < at ==> in_class(CharClass::Bit, #[trigger] src[p.line][i]),
        is_digit(src[p.line][at]),
        !in_class(CharClass::Bit, src[p.line][at]),
    ensures
        scan_at(src, p) == failed(src, p, at - p.column, expected_bit(src[p.line][at])),
        Scan::Failed(lex_from(src, p)->Err_0) == scan_at(src, p),
        lex_from(src, p) is Err,
{
    let line = src[p.line];
    lemma_run_end_is(line, p.column, at, CharClass::Bit);
    lemma_run_end(line, p.column, CharClass::Digit);
}

/// A longest run of digits that does not start with `0` and holds a digit
/// other than `0` and `1` is one number token with the decimal value of the
/// run, provided the integer type can hold that value.
pub proof fn law_number(src: Seq<Seq<char>>, p: Position, end: int, other: int)
    requires
        valid_source(src),
        in_source(src, p),
        char_at(src, p) != '0',
        p.column < end <= src[p.line].len(),
        forall|i: int| p.column <= i < end ==> is_digit(#[trigger] src[p.line][i]),
        end == src[p.line].len() || !is_digit(src[p.line][end]),
        p.column <= other < end,
        !in_class(CharClass::Bit, src[p.line][other]),
        decimal_value(src[p.line].subrange(p.column, end)) <= isize::MAX,
    ensures
        scan_at(src, p) == found(
            p,
            end - p.column,
            TokenTypeView::Number(decimal_value(src[p.line].subrange(p.column, end))),
            Position { line: p.line, column: end },
        ),
{
    let line = src[p.line];
    lemma_run_end_is(line, p.column, end, CharClass::Digit);
    lemma_run_end(line, p.column, CharClass::Bit);
}

/// A dash that `>` does not follow is rejected at the character after it,
/// with the message that names the expected `>`; lexing from the dash fails
/// with that error.
pub proof fn law_lone_dash(src: Seq<Seq<char>>, p: Position)
    requires
        valid_source(src),
        in_source(src, p),
        char_at(src, p) == '-',
        char_at(src, step(src, p)) != '>',
    ensures
        scan_at(src, p) == failed(
            src,
            step(src, p),
            2,
            expected_arrow_head(char_at(src, step(src, p))),
        ),
        lex_from(src, p) is Err,
        Scan::Failed(lex_from(src, p)->Err_0) == scan_at(src, p),
        expected_arrow_head(char_at(src, step(src, p))).subrange(0, 29)
            == "unexpected char expected <>> "@,
{
    reveal_strlit("unexpected char expected <>> got <");
    reveal_strlit("unexpected char expected <>> ");
}

/// The five reserved words are recognised, each as its own kind.
pub proof fn law_reserved_words()
    ensures
        word_kind("pin"@) == TokenTypeView::Pin,
        word_kind("table"@) == TokenTypeView::Table,
        word_kind("count"@) == TokenTypeView::Count,
        word_kind("fill"@) == TokenTypeView::Fill,
        word_kind("dff"@) == TokenTypeView::Dff,
{
    reveal_strlit("pin");
    reveal_strlit("table");
    reveal_strlit("count");
    reveal_strlit("fill");
    reveal_strlit("dff");
    assert("table"@[0] != "pin"@[0]);
    assert("count"@[0] != "pin"@[0]);
    assert("fill"@[0] != "pin"@[0]);
}

/// A word is one token that spans the longest run of letters, digits and
/// underscores. It is a reserved word only if the whole run is spelt exactly
/// like one; any other run, also one that merely begins with a reserved
/// word, is an identifier with the run as its name.
pub proof fn law_word(src: Seq<Seq<char>>, p: Position, end: int)
    requires
        valid_source(src),
        in_source(src, p),
        is_letter(char_at(src, p)),
        p.column < end <= src[p.line].len(),
        forall|i: int| p.column <= i < end ==> in_class(CharClass::Word, #[trigger] src[p.line][i]),
        end == src[p.line].len() || !in_class(CharClass::Word, src[p.line][end]),
    ensures
        scan_at(src, p) == found(
            p,
            end - p.column,
            word_kind(src[p.line].subrange(p.column, end)),
            Position { line: p.line, column: end },
        ),
        !is_reserved(src[p.line].subrange(p.column, end)) ==> word_kind(
            src[p.line].subrange(p.column, end),
        ) == TokenTypeView::Identifier(src[p.line].subrange(p.column, end)),
        is_reserved(src[p.line].subrange(p.column, end)) ==> !(word_kind(
            src[p.line].subrange(p.column, end),
        ) is Identifier),
{
    lemma_run_end_is(src[p.line], p.column, end, CharClass::Word);
}

/// A line comment runs from its two slashes up to the line break that ends
/// the line. The line break is not part of it: it is the next token, a
/// whitespace token of its own.
pub proof fn law_line_comment(src: Seq<Seq<char>>, p: Position)
    requires
        valid_source(src),
        in_source(src, p),
        char_at(src, p) == '/',
        char_at(src, step(src, p)) == '/',
    ensures
        ({
            let stop = Position { line: p.line, column: src[p.line].len() - 1 };
            &&& scan_at(src, p) == found(
                p,
                stop.column - p.column,
                TokenTypeView::Ignore(Some(src[p.line].subrange(p.column, stop.column))),
                stop,
            )
            &&& char_at(src, stop) == '\n'
            &&& scan_at(src, stop) == found(
                stop,
                1,
                TokenTypeView::Ignore(None),
                Position { line: p.line + 1, column: 0 },
            )
        }),
{
}

/// The closing slash of a block comment directly follows a star of the
/// comment's body, on the same line.
pub proof fn lemma_star_before_close(src: Seq<Seq<char>>, from: Position, after_star: bool)
    requires
        valid_source(src),
        reachable(src, from),
        closing_slash(src, from, after_star) is Some,
    ensures
        ({
            let close = closing_slash(src, from, after_star)->Some_0;
            close != from ==> {
                &&& close.column >= 1
                &&& src[close.line][close.column - 1] == '*'
                &&& (close.line == from.line ==> from.column < close.column)
            }
        }),
    decreases src.len() - from.line, src[from.line].len() - from.column,
{
    if in_source(src, from) && !(after_star && char_at(src, from) == '/') {
        let next = step(src, from);
        let star = char_at(src, from) == '*';
        lemma_star_before_close(src, next, star);
        lemma_closing_slash(src, next, star);
    }
}

/// A block comment is one token from `/*` through the first `*/` after it.
/// Its text is the source text between the two, delimiters included, and it
/// counts the lines from the one that opens it to the one that closes it.
pub proof fn law_block_comment(src: Seq<Seq<char>>, p: Position, close: Position)
    requires
        valid_source(src),
        in_source(src, p),
        char_at(src, p) == '/',
        char_at(src, step(src, p)) == '*',
        closing_slash(src, step(src, step(src, p)), false) == Some(close),
    ensures
        ({
            let next = Position { line: close.line, column: close.column + 1 };
            let text = text_between(src, p, next);
            &&& scan_at(src, p) == Scan::Found {
                token: TokenView {
                    begin_line: p.line,
                    begin_char: p.column,
                    len_char: text.len() as int,
                    len_line: close.line - p.line + 1,
                    token_type: TokenTypeView::Ignore(Some(text)),
                },
                next,
            }
            &&& p.line <= close.line
            &&& text.len() >= 4
            &&& text[0] == '/'
            &&& text[1] == '*'
            &&& text[text.len() - 2] == '*'
            &&& text[text.len() - 1] == '/'
        }),
{
    let body = step(src, step(src, p));
    lemma_closing_slash(src, body, false);
    lemma_star_before_close(src, body, false);
    if close.line != p.line {
        lemma_text_head(
            src,
            p,
            Position { line: close.line - 1, column: src[close.line - 1].len() as int },
        );
    }
}

/// A text that starts at `p` and ends on a later line, or on the line of `p`
/// at its end, begins with the characters of that line from `p` on.
proof fn lemma_text_head(src: Seq<Seq<char>>, p: Position, to: Position)
    requires
        valid_source(src),
        in_source(src, p),
        p.line <= to.line < src.len(),
        to.column == src[to.line].len(),
    ensures
        text_between(src, p, to).len() >= src[p.line].len() - p.column,
        forall|i: int|
            0 <= i < src[p.line].len() - p.column ==> text_between(src, p, to)[i]
                == src[p.line][p.column + i],
    decreases to.line - p.line,
{
    if to.line > p.line {
        lemma_text_head(
            src,
            p,
            Position { line: to.line - 1, column: src[to.line - 1].len() as int },
        );
    }
}

/// The position at which a token begins.
pub open spec fn begin_of(token: TokenView) -> Position {
    Position { line: token.begin_line, column: token.begin_char }
}

/// The position at which the token after the `k`-th begins: the begin of
/// the next token, or the end of the source after the last.
pub open spec fn end_of_token(src: Seq<Seq<char>>, tokens: Seq<TokenView>, k: int) -> Position {
    if k + 1 < tokens.len() {
        begin_of(tokens[k + 1])
    } else {
        end_of(src)
    }
}

/// The line of the character right before `p`, where `p` is a character of
/// a source or its end, and not its start.
pub open spec fn last_line_before(p: Position) -> int {
    if p.column == 0 {
        p.line - 1
    } else {
        p.line
    }
}

/// The sum of the character counts of `tokens`.
pub open spec fn total_len(tokens: Seq<TokenView>) -> int
    decreases tokens.len(),
{
    if tokens.len() == 0 {
        0
    } else {
        tokens[0].len_char + total_len(tokens.drop_first())
    }
}

/// A token begins where it was scanned. It covers exactly the characters
/// from there to the position behind it, and it counts the lines from its
/// first character to its last.
pub proof fn law_token_span(src: Seq<Seq<char>>, p: Position)
    requires
        valid_source(src),
        in_source(src, p),
    ensures
        (scan_at(src, p) matches Scan::Found { token, next } ==> {
            &&& begin_of(token) == p
            &&& token.len_char == text_between(src, p, next).len()
            &&& token.len_char >= 1
            &&& token.len_line == last_line_before(next) - p.line + 1
            &&& token.len_line >= 1
        }),
{
    let line = src[p.line];
    lemma_run_end(line, p.column, CharClass::Digit);
    lemma_run_end(line, p.column, CharClass::Word);
    lemma_text_next_line(src, p, p.line);
    let body = step(src, step(src, p));
    if closing_slash(src, body, false) is Some {
        lemma_closing_slash(src, body, false);
    }
}

/// The tokens of a successful pass form a chain over the source.
///
/// The first token begins where the pass began. Every token is the one that
/// the grammar finds at its begin, it covers exactly the characters up to
/// the begin of the next token, which lies later in the source, and the
/// last token reaches the end of the source. So the spans of the tokens
/// neither overlap nor leave a gap, and they come in reading order.
pub proof fn law_token_chain(src: Seq<Seq<char>>, p: Position, k: int)
    requires
        valid_source(src),
        in_source(src, p),
        lex_from(src, p) is Ok,
        0 <= k < lex_from(src, p)->Ok_0.len(),
    ensures
        ({
            let tokens = lex_from(src, p)->Ok_0;
            let begin = begin_of(tokens[k]);
            let next = end_of_token(src, tokens, k);
            &&& begin_of(tokens[0]) == p
            &&& in_source(src, begin)
            &&& scan_at(src, begin) == Scan::Found { token: tokens[k], next }
            &&& after(begin, next)
            &&& tokens[k].len_char == text_between(src, begin, next).len()
        }),
    decreases k,
{
    lemma_scan_advances(src, p);
    law_token_span(src, p);
    match scan_at(src, p) {
        Scan::Found { token, next } => {
            if in_source(src, next) && k > 0 {
                law_token_chain(src, next, k - 1);
            }
        },
        Scan::Failed(_) => {},
    }
}

/// No token of a successful pass has the placeholder kind that the
/// positions of diagnostics carry.
pub proof fn law_no_unknown_token(src: Seq<Seq<char>>, p: Position, k: int)
    requires
        valid_source(src),
        in_source(src, p),
        lex_from(src, p) is Ok,
        0 <= k < lex_from(src, p)->Ok_0.len(),
    ensures
        lex_from(src, p)->Ok_0[k].token_type != TokenTypeView::Unknown,
{
    law_token_chain(src, p, k);
}

/// The text from `p` to `r` is the text from `p` to `q` followed by the
/// text from `q` to `r`, for `q` between the two.
pub proof fn law_text_additive(src: Seq<Seq<char>>, p: Position, q: Position, r: Position)
    requires
        p.line < q.line || (p.line == q.line && 0 <= p.column <= q.column),
        q.line < r.line || (q.line == r.line && q.column <= r.column),
        0 <= q.column <= src[q.line].len(),
        0 <= r.column <= src[r.line].len(),
    ensures
        text_between(src, p, q) + text_between(src, q, r) == text_between(src, p, r),
    decreases r.line - q.line,
{
    if r.line != q.line {
        law_text_additive(
            src,
            p,
            q,
            Position { line: r.line - 1, column: src[r.line - 1].len() as int },
        );
    }
}

/// The tokens of a successful pass cover the source: together they count
/// as many characters as lie between the begin of the pass and the end of
/// the source.
pub proof fn law_tokens_cover(src: Seq<Seq<char>>, p: Position)
    requires
        valid_source(src),
        reachable(src, p),
        lex_from(src, p) is Ok,
    ensures
        total_len(lex_from(src, p)->Ok_0) == text_between(src, p, end_of(src)).len(),
    decreases src.len() - p.line, src[p.line].len() - p.column,
{
    if in_source(src, p) {
        lemma_scan_advances(src, p);
        law_token_span(src, p);
        match scan_at(src, p) {
            Scan::Found { token, next } => {
                assert(lex_from(src, p)->Ok_0.drop_first() =~= lex_from(src, next)->Ok_0);
                law_tokens_cover(src, next);
                if in_source(src, next) {
                    law_text_additive(src, p, next, end_of(src));
                }
            },
            Scan::Failed(_) => {},
        }
    }
}

/// The text from the start of a source to the end of one of its lines is
/// the lines up to that one, joined.
proof fn lemma_text_of_lines(src: Seq<Seq<char>>, line: int)
    requires
        0 <= line < src.len(),
    ensures
        text_between(src, start(), Position { line, column: src[line].len() as int })
            == src.subrange(0, line + 1).flatten_alt(),
    decreases line,
{
    let lines = src.subrange(0, line + 1);
    if line > 0 {
        lemma_text_of_lines(src, line - 1);
        assert(lines.drop_last() =~= src.subrange(0, line));
    } else {
        assert(lines.drop_last().flatten_alt() + src[line] =~= src[line]);
    }
}

/// The text from the start of a source to its end is all of its lines,
/// joined.
pub proof fn law_source_text(src: Seq<Seq<char>>)
    requires
        src.len() > 0,
    ensures
        text_between(src, start(), end_of(src)) == src.flatten(),
{
    lemma_text_of_lines(src, src.len() - 1);
    assert(src.subrange(0, src.len() as int) =~= src);
    src.lemma_flatten_and_flatten_alt_are_equivalent();
}

/// The tokens of a successful pass over a whole source count exactly the
/// characters of the source, line breaks included.
pub proof fn law_pass_covers_source(src: Seq<Seq<char>>)
    requires
        valid_source(src),
        lex_source(src) is Ok,
    ensures
        total_len(lex_source(src)->Ok_0) == src.flatten().len(),
{
    law_tokens_cover(src, start());
    law_source_text(src);
}

} // verus!
