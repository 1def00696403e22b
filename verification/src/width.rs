//! Display widths of characters and text, in terminal columns.

use unicode_width::UnicodeWidthChar;
use unicode_width::UnicodeWidthStr;
use vstd::prelude::*;

verus! {

/// The entry of a character in the width tables of `unicode_width`: its
/// column count, or `None` for a control character.
pub uninterp spec fn unicode_columns(c: char) -> Option<usize>;

/// The column count of a character: one for printable ASCII, the entry of
/// the width tables otherwise.
pub open spec fn column_count(c: char) -> Option<usize> {
    if ' ' <= c <= '~' {
        Some(1)
    } else {
        unicode_columns(c)
    }
}

/// Columns by which a character advances the cursor: its column count, or
/// nothing where it has none.
pub open spec fn char_columns(c: char) -> nat {
    match column_count(c) {
        Some(w) => w as nat,
        None => 0,
    }
}

/// Columns taken by a run of characters: the sum over its characters.
pub open spec fn text_columns(s: Seq<char>) -> nat
    decreases s.len(),
{
    if s.len() == 0 {
        0
    } else {
        text_columns(s.drop_last()) + char_columns(s.last())
    }
}

/// Calls `UnicodeWidthChar::width`. Trusted: the result is one column for
/// the printable ASCII characters and the entry of the width tables, named
/// by `unicode_columns`, for the others; it is never more than two columns.
#[verifier::external_body]
pub(crate) fn char_width(c: char) -> (w: Option<usize>)
    ensures
        ' ' <= c <= '~' ==> w == Some(1usize),
        !(' ' <= c <= '~') ==> w == unicode_columns(c),
        w is Some ==> w->0 <= 2,
{
    UnicodeWidthChar::width(c)
}

/// Calls `UnicodeWidthStr::width`. Trusted: the result is the sum of the
/// widths of the characters, a control character counting as zero.
#[verifier::external_body]
pub(crate) fn str_width(s: &str) -> (w: usize)
    ensures
        w == text_columns(s@),
{
    UnicodeWidthStr::width(s)
}

/// Columns by which a character advances the cursor.
pub fn columns_of(c: char) -> (w: usize)
    ensures
        w == char_columns(c),
        w <= 2,
{
    match char_width(c) {
        Some(w) => w,
        None => 0,
    }
}

/// Appending one character adds its columns.
pub proof fn lemma_columns_push(s: Seq<char>, c: char)
    ensures
        text_columns(s.push(c)) == text_columns(s) + char_columns(c),
{
    assert(s.push(c).drop_last() =~= s);
}

/// The columns of a concatenation are the sum of the columns of its parts.
pub proof fn lemma_columns_concat(a: Seq<char>, b: Seq<char>)
    ensures
        text_columns(a + b) == text_columns(a) + text_columns(b),
    decreases b.len(),
{
    if b.len() == 0 {
        assert(a + b =~= a);
    } else {
        lemma_columns_concat(a, b.drop_last());
        assert((a + b).drop_last() =~= a + b.drop_last());
    }
}

/// A prefix never takes more columns than the whole.
pub proof fn lemma_columns_prefix(s: Seq<char>, n: int)
    requires
        0 <= n <= s.len(),
    ensures
        text_columns(s.take(n)) <= text_columns(s),
{
    lemma_columns_concat(s.take(n), s.skip(n));
    assert(s.take(n) + s.skip(n) =~= s);
}

/// A run of spaces.
pub open spec fn spaces(n: nat) -> Seq<char> {
    Seq::new(n, |i: int| ' ')
}

/// A run of `n` spaces takes `n` columns.
pub proof fn lemma_columns_spaces(n: nat)
    ensures
        text_columns(spaces(n)) == n,
    decreases n,
{
    if n > 0 {
        lemma_columns_spaces((n - 1) as nat);
        assert(spaces(n).drop_last() =~= spaces((n - 1) as nat));
    }
}

} // verus!
