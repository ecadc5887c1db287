//! Small texts: the messages of diagnostics, and reading and comparing
//! runs of characters.

use vstd::prelude::*;
use vstd::string::*;
use crate::parser::grammar::{citing, decimal_value, digit_value, is_digit};
use crate::parser::lexer::Lexer;

verus! {

/// A message that cites `culprit` in angle brackets after `opening`.
pub fn cite(opening: &str, culprit: &str) -> (message: String)
    ensures
        message@ == citing(opening@, culprit@),
{
    let mut message = String::from_str(opening);
    message.append(culprit);
    message.append(">");
    message
}

/// The value of a decimal digit.
fn digit(c: char) -> (value: isize)
    requires
        is_digit(c),
    ensures
        value == digit_value(c),
{
    (c as u8 - '0' as u8) as isize
}

/// The value of a prefix of a run of digits is at most the value of the run.
proof fn lemma_decimal_prefix(digits: Seq<char>, k: int)
    requires
        0 <= k <= digits.len(),
        forall|i: int| 0 <= i < digits.len() ==> is_digit(#[trigger] digits[i]),
    ensures
        0 <= decimal_value(digits.subrange(0, k)) <= decimal_value(digits),
    decreases digits.len() - k,
{
    if k == digits.len() {
        assert(digits.subrange(0, k) =~= digits);
        lemma_decimal_nonnegative(digits);
    } else {
        lemma_decimal_prefix(digits, k + 1);
        assert(digits.subrange(0, k + 1).drop_last() =~= digits.subrange(0, k));
    }
}

/// The value of a run of digits is not negative.
proof fn lemma_decimal_nonnegative(digits: Seq<char>)
    requires
        forall|i: int| 0 <= i < digits.len() ==> is_digit(#[trigger] digits[i]),
    ensures
        0 <= decimal_value(digits),
    decreases digits.len(),
{
    if digits.len() > 0 {
        lemma_decimal_nonnegative(digits.drop_last());
    }
}

/// Reads a decimal number.
///
/// The result is the number that `text` writes if `text` is a non-empty run
/// of decimal digits whose value the integer type can hold, and `None`
/// otherwise.
pub fn parse_decimal(text: &str) -> (number: Option<isize>)
    ensures
        number is Some <==> ({
            &&& text@.len() > 0
            &&& forall|i: int| 0 <= i < text@.len() ==> is_digit(#[trigger] text@[i])
            &&& decimal_value(text@) <= isize::MAX
        }),
        number is Some ==> number->Some_0 == decimal_value(text@),
{
    let n = text.unicode_len();
    if n == 0 {
        return None;
    }
    let mut value: isize = 0;
    let mut i: usize = 0;
    while i < n
        invariant
            i <= n,
            n == text@.len(),
            forall|j: int| 0 <= j < i ==> is_digit(#[trigger] text@[j]),
            value == decimal_value(text@.subrange(0, i as int)),
            0 <= value,
        decreases n - i,
    {
        let c = text.get_char(i);
        if !Lexer::is_digit(c) {
            return None;
        }
        proof {
            assert(text@.subrange(0, i + 1).drop_last() =~= text@.subrange(0, i as int));
            if forall|j: int| 0 <= j < text@.len() ==> is_digit(#[trigger] text@[j]) {
                lemma_decimal_prefix(text@, i + 1);
            }
        }
        let shifted = match value.checked_mul(10) {
            Some(shifted) => shifted,
            None => {
                return None;
            },
        };
        value = match shifted.checked_add(digit(c)) {
            Some(sum) => sum,
            None => {
                return None;
            },
        };
        i += 1;
    }
    assert(text@.subrange(0, n as int) =~= text@);
    Some(value)
}

/// Whether two texts hold the same characters.
pub fn same_text(a: &str, b: &str) -> (same: bool)
    ensures
        same == (a@ == b@),
{
    let n = a.unicode_len();
    if n != b.unicode_len() {
        return false;
    }
    let mut i: usize = 0;
    while i < n
        invariant
            i <= n,
            n == a@.len(),
            n == b@.len(),
            forall|j: int| 0 <= j < i ==> a@[j] == b@[j],
        decreases n - i,
    {
        if a.get_char(i) != b.get_char(i) {
            return false;
        }
        i += 1;
    }
    assert(a@ =~= b@);
    true
}

} // verus!
