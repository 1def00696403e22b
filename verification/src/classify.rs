//! Tells an emoticon face from an ordinary parenthesised clause.

use crate::text::alphanumeric;
use crate::text::char_is_alphanumeric;
use crate::text::char_len_utf8;
use crate::text::utf8_len;
use crate::width::char_width;
use crate::width::str_width;
use crate::width::text_columns;
use crate::width::column_count;
use vstd::prelude::*;

verus! {

/// The widest text, in columns, that is still taken for a face.
pub const MAX_FACE_COLUMNS: usize = 10;

/// The characters that count as arithmetic or logic operators.
pub open spec fn operator_char(c: char) -> bool {
    c == '+' || c == '-' || c == '*' || c == '/' || c == '^' || c == '%' || c == '!' || c == ','
        || c == '.' || c == '=' || c == '|' || c == '&'
}

/// Whether a character may occur in a plain expression, given whether it
/// is a letter or a digit: a letter, a digit, a space or an operator may.
/// An underscore may not, so that `x_x` and `^_^` are no expressions.
pub open spec fn expression_char_given(c: char, letter_or_digit: bool) -> bool {
    letter_or_digit || c == ' ' || operator_char(c)
}

/// A character that may occur in a plain expression.
pub open spec fn expression_char(c: char) -> bool {
    expression_char_given(c, alphanumeric(c))
}

/// A plain expression is made of expression characters only.
pub open spec fn expression_text(s: Seq<char>) -> bool {
    forall|i: int| 0 <= i < s.len() ==> expression_char(#[trigger] s[i])
}

/// Whether a character by itself speaks for a face, given the bytes of its
/// encoding and its columns: one from the code point 1000 on does, one
/// encoded in several bytes, a wide one and one without width.
pub open spec fn face_evidence_given(c: char, bytes: nat, columns: Option<usize>) -> bool {
    c as u32 >= 1000 || bytes >= 2 || match columns {
        Some(w) => w >= 2 || w == 0,
        None => false,
    }
}

/// A character that by itself speaks for a face.
pub open spec fn face_evidence(c: char) -> bool {
    face_evidence_given(c, utf8_len(c), column_count(c))
}

/// Whether a text holds a character that speaks for a face.
pub open spec fn holds_evidence(s: Seq<char>) -> bool {
    exists|i: int| 0 <= i < s.len() && face_evidence(#[trigger] s[i])
}

/// The verdict on a text of so many columns: it is a face when it is at
/// most ten columns wide and either holds a character that speaks for a
/// face or is no plain expression.
pub open spec fn face_given(columns: nat, evidence: bool, expression: bool) -> bool {
    columns <= MAX_FACE_COLUMNS && (evidence || !expression)
}

/// Text in parentheses that is taken for a face.
pub open spec fn face_text(s: Seq<char>) -> bool {
    face_given(text_columns(s), holds_evidence(s), expression_text(s))
}

/// Whether a character is an arithmetic or logic operator.
pub fn is_operator(c: char) -> (b: bool)
    ensures
        b == operator_char(c),
{
    c == '+' || c == '-' || c == '*' || c == '/' || c == '^' || c == '%' || c == '!' || c == ','
        || c == '.' || c == '=' || c == '|' || c == '&'
}

/// Whether a character may occur in a plain expression, given whether it
/// is a letter or a digit.
pub fn is_expression_char(c: char, letter_or_digit: bool) -> (b: bool)
    ensures
        b == expression_char_given(c, letter_or_digit),
{
    letter_or_digit || c == ' ' || is_operator(c)
}

/// Whether a text is made of letters, digits, spaces and operators only.
pub fn is_alphanumeric_space_operator(ch: &str) -> (b: bool)
    ensures
        b == expression_text(ch@),
{
    let mut all: bool = true;
    for c in it: ch.chars()
        invariant
            it.seq() == ch@,
            all == expression_text(ch@.take(it.index())),
    {
        let ghost n = it.index();
        let ok = is_expression_char(c, char_is_alphanumeric(c));
        proof {
            let before = ch@.take(n);
            let after = ch@.take(n + 1);
            assert(after =~= before.push(c));
            if all && ok {
                assert forall|i: int| 0 <= i < after.len() implies expression_char(
                    #[trigger] after[i],
                ) by {
                    if i < n {
                        assert(after[i] == before[i]);
                    }
                }
            } else if !ok {
                assert(!expression_char(after[n]));
            } else {
                let k = choose|k: int| 0 <= k < before.len() && !expression_char(before[k]);
                assert(after[k] == before[k]);
            }
        }
        all = all && ok;
    }
    proof {
        assert(ch@.take(ch@.len() as int) =~= ch@);
    }
    all
}

/// Whether a text is a plain expression, such as a sum or a product.
pub fn is_expression(ch: &str) -> (b: bool)
    ensures
        b == expression_text(ch@),
{
    is_alphanumeric_space_operator(ch)
}

/// Whether a character by itself speaks for a face, given the bytes of its
/// encoding and its columns.
pub fn is_face_evidence(c: char, bytes: usize, columns: Option<usize>) -> (b: bool)
    ensures
        b == face_evidence_given(c, bytes as nat, columns),
{
    c as u32 >= 1000 || bytes >= 2 || match columns {
        Some(w) => w >= 2 || w == 0,
        None => false,
    }
}

/// The verdict on a text, given its columns, whether it holds a character
/// that speaks for a face, and whether it is a plain expression.
pub fn is_face(columns: usize, evidence: bool, expression: bool) -> (b: bool)
    ensures
        b == face_given(columns as nat, evidence, expression),
{
    columns <= MAX_FACE_COLUMNS && (evidence || !expression)
}

/// Whether the text between two parentheses is a face.
pub fn is_meme(ch: &str) -> (b: bool)
    ensures
        b == face_text(ch@),
{
    let total_width = str_width(ch);
    let mut evidence: bool = false;
    for c in it: ch.chars()
        invariant
            it.seq() == ch@,
            evidence == (exists|i: int| 0 <= i < it.index() && face_evidence(#[trigger] ch@[i])),
    {
        let ghost n = it.index();
        let e = is_face_evidence(c, char_len_utf8(c), char_width(c));
        proof {
            if evidence {
                let k = choose|k: int| 0 <= k < n && face_evidence(ch@[k]);
                assert(0 <= k < n + 1 && face_evidence(ch@[k]));
            } else if e {
                assert(0 <= n < n + 1 && face_evidence(ch@[n]));
            }
        }
        evidence = evidence || e;
    }
    is_face(total_width, evidence, is_expression(ch))
}

} // verus!
