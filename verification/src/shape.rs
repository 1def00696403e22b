//! What holds of every analysis: the shape of the memes, the order of the
//! leftover text, and the columns that the leftover text keeps.

use crate::body::BodyView;
use crate::body::Fragment;
use crate::body::HeadView;
use crate::body::MemeView;
use crate::classify::face_text;
use crate::parse::analysis;
use crate::residual::fragment_end;
use crate::residual::lemma_unify_columns;
use crate::residual::lemma_unify_regroup;
use crate::residual::merge_in;
use crate::residual::ordered;
use crate::residual::regroup;
use crate::residual::lemma_regroup_settled;
use crate::residual::settled;
use crate::residual::unify;
use crate::scan::extend_right;
use crate::scan::flush;
use crate::scan::is_boundary;
use crate::scan::scan;
use crate::scan::step;
use crate::scan::step_given;
use crate::scan::ScanState;
use crate::width::char_columns;
use crate::width::lemma_columns_concat;
use crate::width::lemma_columns_push;
use crate::width::text_columns;
use vstd::prelude::*;

verus! {

/// The text holds no space.
pub open spec fn no_space(s: Seq<char>) -> bool {
    forall|i: int| 0 <= i < s.len() ==> #[trigger] s[i] != ' '
}

/// A head is sound: its text is a face, and its closing parenthesis stands
/// behind the opening one and the text, in columns and in characters.
pub open spec fn head_wf(h: HeadView) -> bool {
    &&& face_text(h.face)
    &&& h.endx == h.startx + 1 + text_columns(h.face)
    &&& h.end_position == h.start_position + 1 + h.face.len()
}

/// A meme is sound: its head is, its sides hold no space, and its two
/// positions are those of the first and the last character of the unit.
pub open spec fn meme_wf(m: MemeView) -> bool {
    &&& head_wf(m.head)
    &&& no_space(m.left_side)
    &&& no_space(m.right_side)
    &&& m.start_position + m.left_side.len() == m.head.start_position
    &&& m.end_position == m.head.end_position + m.right_side.len()
    &&& text_columns(m.left_side) <= m.head.startx
}

/// The column at which the left side of a meme starts.
pub open spec fn meme_start_column(m: MemeView) -> int {
    m.head.startx - text_columns(m.left_side)
}

/// The column just behind the right side of a meme.
pub open spec fn meme_end_column(m: MemeView) -> int {
    (m.head.endx + 1 + text_columns(m.right_side)) as int
}

/// No fragment shares a column with a meme.
pub open spec fn separate(memes: Seq<MemeView>, rest: Seq<Fragment>) -> bool {
    forall|i: int, j: int|
        0 <= i < memes.len() && 0 <= j < rest.len() ==> fragment_end(#[trigger] rest[j])
            <= meme_start_column(#[trigger] memes[i]) || meme_end_column(memes[i])
            <= rest[j].start
}

/// The memes stand from left to right, none on the columns of another.
pub open spec fn memes_ordered(memes: Seq<MemeView>) -> bool {
    forall|i: int|
        0 <= i < memes.len() - 1 ==> meme_end_column(#[trigger] memes[i]) <= meme_start_column(
            memes[i + 1],
        )
}

/// Memes and fragments that are sound, in order, apart from each other, and
/// all before the column `limit`.
pub open spec fn closed_wf(memes: Seq<MemeView>, rest: Seq<Fragment>, limit: nat) -> bool {
    &&& forall|i: int| 0 <= i < memes.len() ==> meme_wf(#[trigger] memes[i])
    &&& forall|i: int| 0 <= i < memes.len() ==> meme_end_column(#[trigger] memes[i]) <= limit
    &&& memes_ordered(memes)
    &&& forall|j: int| 0 <= j < rest.len() ==> (#[trigger] rest[j]).text.len() > 0
    &&& forall|j: int| 0 <= j < rest.len() ==> fragment_end(#[trigger] rest[j]) <= limit
    &&& ordered(rest)
    &&& separate(memes, rest)
}

/// What holds of the scan after every prefix `line`.
#[verifier::opaque]
pub open spec fn scan_wf(s: ScanState, line: Seq<char>) -> bool {
    &&& s.column == text_columns(line)
    &&& s.index == line.len()
    &&& s.word_column + text_columns(s.word) == s.column
    &&& text_columns(s.since_space) <= text_columns(s.word)
    &&& s.since_index + s.since_space.len() == s.index
    &&& no_space(s.since_space)
    &&& (s.word.len() == 0 ==> s.rest.len() == 0 && s.pending is None && s.column == 0)
    &&& (s.open ==> {
        &&& no_space(s.left)
        &&& s.left_index + s.left.len() == s.face_index
        &&& s.face_index + 1 + s.face.len() == s.index
        &&& s.word_column + text_columns(s.left) <= s.face_column
        &&& s.face_column + 1 + text_columns(s.face) == s.column
    })
    &&& (match s.pending {
        Some(m) => {
            &&& meme_wf(m)
            &&& s.word_column <= meme_start_column(m)
            &&& meme_end_column(m) == s.column
            &&& m.end_position + 1 == s.index
        },
        None => true,
    })
    &&& closed_wf(s.memes, s.rest, s.word_column)
}

proof fn lemma_no_space_push(s: Seq<char>, c: char)
    requires
        no_space(s),
        c != ' ',
    ensures
        no_space(s.push(c)),
{
    assert forall|i: int| 0 <= i < s.push(c).len() implies #[trigger] s.push(c)[i] != ' ' by {
        if i < s.len() {
            assert(s.push(c)[i] == s[i]);
        }
    }
}

proof fn lemma_extend_right(s: ScanState, c: char, line: Seq<char>)
    requires
        scan_wf(s, line),
        c != ' ',
    ensures
        match extend_right(s.pending, c, s.index) {
            Some(m) => {
                &&& meme_wf(m)
                &&& s.word_column <= meme_start_column(m)
                &&& meme_end_column(m) == s.column + char_columns(c)
                &&& m.end_position == s.index
            },
            None => s.pending is None,
        },
{
    reveal(scan_wf);
    if let Some(m) = s.pending {
        lemma_no_space_push(m.right_side, c);
        lemma_columns_push(m.right_side, c);
    }
}

/// Closing a word keeps memes and fragments sound and in order.
pub proof fn lemma_flush_wf(s: ScanState, line: Seq<char>)
    requires
        scan_wf(s, line),
    ensures
        closed_wf(flush(s).memes, flush(s).rest, s.column),
        s.pending is None && s.word.len() > 0 ==> flush(s).rest.len() > 0 && fragment_end(
            flush(s).rest.last(),
        ) == s.column,
        s.pending is None && s.word.len() == 0 ==> flush(s).rest.len() == 0 && s.column == 0,
{
    reveal(scan_wf);
    let e = flush(s);
    match s.pending {
        Some(m) => {
            assert(e.rest == s.rest);
            assert forall|i: int| 0 <= i < e.memes.len() implies meme_wf(#[trigger] e.memes[i])
                && meme_end_column(e.memes[i]) <= s.column by {
                if i < s.memes.len() {
                    assert(e.memes[i] == s.memes[i]);
                }
            }
            assert forall|i: int| 0 <= i < e.memes.len() - 1 implies meme_end_column(
                #[trigger] e.memes[i],
            ) <= meme_start_column(e.memes[i + 1]) by {
                assert(e.memes[i] == s.memes[i]);
                if i + 1 < s.memes.len() {
                    assert(e.memes[i + 1] == s.memes[i + 1]);
                }
            }
            assert forall|i: int, j: int|
                0 <= i < e.memes.len() && 0 <= j < e.rest.len() implies fragment_end(
                #[trigger] e.rest[j],
            ) <= meme_start_column(#[trigger] e.memes[i]) || meme_end_column(e.memes[i])
                <= e.rest[j].start by {
                if i < s.memes.len() {
                    assert(e.memes[i] == s.memes[i]);
                }
            }
        },
        None => {
            assert(e.memes == s.memes);
            if s.word.len() > 0 {
                let f = Fragment { start: s.word_column, text: s.word };
                assert(e.rest == s.rest.push(f));
                assert forall|j: int| 0 <= j < e.rest.len() implies (#[trigger] e.rest[j]).text.len()
                    > 0 && fragment_end(e.rest[j]) <= s.column by {
                    if j < s.rest.len() {
                        assert(e.rest[j] == s.rest[j]);
                    }
                }
                assert forall|j: int| 0 <= j < e.rest.len() - 1 implies fragment_end(
                    #[trigger] e.rest[j],
                ) <= e.rest[j + 1].start by {
                    assert(e.rest[j] == s.rest[j]);
                    if j + 1 < s.rest.len() {
                        assert(e.rest[j + 1] == s.rest[j + 1]);
                    }
                }
                assert forall|i: int, j: int|
                    0 <= i < e.memes.len() && 0 <= j < e.rest.len() implies fragment_end(
                    #[trigger] e.rest[j],
                ) <= meme_start_column(#[trigger] e.memes[i]) || meme_end_column(e.memes[i])
                    <= e.rest[j].start by {
                    if j < s.rest.len() {
                        assert(e.rest[j] == s.rest[j]);
                    }
                }
            } else {
                assert(e.rest == s.rest);
            }
        },
    }
}

/// One more character keeps the scan sound.
pub proof fn lemma_step_wf(s: ScanState, c: char, line: Seq<char>)
    requires
        scan_wf(s, line),
    ensures
        scan_wf(step(s, c), line.push(c)),
{
    reveal(scan_wf);
    reveal(step_given);
    let n = step(s, c);
    lemma_columns_push(line, c);
    lemma_columns_push(s.word, c);
    lemma_columns_push(s.since_space, c);
    lemma_columns_push(s.face, c);
    if is_boundary(s, c) {
        lemma_flush_wf(s, line);
        assert(seq![' '] =~= Seq::<char>::empty().push(' '));
        lemma_columns_push(Seq::<char>::empty(), ' ');
        assert(n.since_space.len() == 0);
        assert(n.word_column == s.column);
    } else if s.open && c == ')' {
        lemma_no_space_push(s.since_space, c);
        if face_text(s.face) {
            let m = n.pending->0;
            assert(m.right_side.len() == 0);
            assert(text_columns(m.right_side) == 0);
            assert(meme_wf(m));
        } else {
            lemma_extend_right(s, c, line);
        }
    } else if s.open {
        if c == ' ' {
            assert(s.pending is None);
            assert(n.since_space.len() == 0);
        } else {
            lemma_no_space_push(s.since_space, c);
            lemma_extend_right(s, c, line);
        }
    } else if c == '(' {
        lemma_no_space_push(s.since_space, c);
        lemma_extend_right(s, c, line);
        assert(n.face.len() == 0);
    } else {
        assert(c != ' ');
        lemma_no_space_push(s.since_space, c);
        lemma_extend_right(s, c, line);
    }
}

/// The scan is sound after every text.
pub proof fn lemma_scan_wf(line: Seq<char>)
    ensures
        scan_wf(scan(line), line),
    decreases line.len(),
{
    if line.len() > 0 {
        lemma_scan_wf(line.drop_last());
        lemma_step_wf(scan(line.drop_last()), line.last(), line.drop_last());
        assert(line.drop_last().push(line.last()) =~= line);
    } else {
        reveal(scan_wf);
        assert(line =~= Seq::<char>::empty());
    }
}

/// Joining the fragments that touch keeps memes and fragments sound, in
/// order and apart, and keeps the column at which the last fragment ends.
pub proof fn lemma_regroup_wf(memes: Seq<MemeView>, rest: Seq<Fragment>, limit: nat)
    requires
        closed_wf(memes, rest, limit),
    ensures
        closed_wf(memes, regroup(rest), limit),
        rest.len() == 0 ==> regroup(rest).len() == 0,
        rest.len() > 0 ==> regroup(rest).len() > 0 && fragment_end(regroup(rest).last())
            == fragment_end(rest.last()),
    decreases rest.len(),
{
    if rest.len() > 0 {
        let r = rest.drop_last();
        let f = rest.last();
        assert forall|j: int| 0 <= j < r.len() implies (#[trigger] r[j]).text.len() > 0
            && fragment_end(r[j]) <= limit by {
            assert(r[j] == rest[j]);
        }
        assert forall|j: int| 0 <= j < r.len() - 1 implies fragment_end(#[trigger] r[j]) <= r[j
            + 1].start by {
            assert(r[j] == rest[j]);
            assert(r[j + 1] == rest[j + 1]);
        }
        assert forall|i: int, j: int| 0 <= i < memes.len() && 0 <= j < r.len() implies fragment_end(
            #[trigger] r[j],
        ) <= meme_start_column(#[trigger] memes[i]) || meme_end_column(memes[i])
            <= r[j].start by {
            assert(r[j] == rest[j]);
        }
        lemma_regroup_wf(memes, r, limit);
        let g = regroup(r);
        let h = merge_in(g, f);
        if r.len() > 0 {
            assert(r.last() == rest[rest.len() - 2]);
            assert(fragment_end(g.last()) <= f.start);
        }
        if g.len() > 0 && fragment_end(g.last()) == f.start {
            let last = g.last();
            lemma_columns_concat(last.text, f.text);
            assert(fragment_end(h.last()) == fragment_end(f));
            assert forall|j: int| 0 <= j < h.len() implies (#[trigger] h[j]).text.len() > 0
                && fragment_end(h[j]) <= limit by {
                if j < g.len() - 1 {
                    assert(h[j] == g[j]);
                }
            }
            assert forall|j: int| 0 <= j < h.len() - 1 implies fragment_end(#[trigger] h[j])
                <= h[j + 1].start by {
                assert(h[j] == g[j]);
                assert(h[j + 1].start == g[j + 1].start);
            }
            assert forall|i: int, j: int|
                0 <= i < memes.len() && 0 <= j < h.len() implies fragment_end(#[trigger] h[j])
                <= meme_start_column(#[trigger] memes[i]) || meme_end_column(memes[i])
                <= h[j].start by {
                if j < g.len() - 1 {
                    assert(h[j] == g[j]);
                } else {
                    assert(meme_wf(memes[i]));
                    assert(fragment_end(g[g.len() - 1]) <= meme_start_column(memes[i])
                        || meme_end_column(memes[i]) <= g[g.len() - 1].start);
                    assert(fragment_end(rest[rest.len() - 1]) <= meme_start_column(memes[i])
                        || meme_end_column(memes[i]) <= rest[rest.len() - 1].start);
                }
            }
        } else {
            assert forall|j: int| 0 <= j < h.len() implies (#[trigger] h[j]).text.len() > 0
                && fragment_end(h[j]) <= limit by {
                if j < g.len() {
                    assert(h[j] == g[j]);
                }
            }
            assert forall|j: int| 0 <= j < h.len() - 1 implies fragment_end(#[trigger] h[j])
                <= h[j + 1].start by {
                assert(h[j] == g[j]);
                if j + 1 < g.len() {
                    assert(h[j + 1] == g[j + 1]);
                }
            }
            assert forall|i: int, j: int|
                0 <= i < memes.len() && 0 <= j < h.len() implies fragment_end(#[trigger] h[j])
                <= meme_start_column(#[trigger] memes[i]) || meme_end_column(memes[i])
                <= h[j].start by {
                if j < g.len() {
                    assert(h[j] == g[j]);
                } else {
                    assert(h[j] == rest[rest.len() - 1]);
                }
            }
        }
    }
}

/// What holds of the analysis of every line: each meme is sound, the memes
/// stand from left to right, the leftover fragments are not empty, stand
/// from left to right without touching, and share no column with a meme.
pub open spec fn body_wf(b: BodyView) -> bool {
    &&& forall|i: int| 0 <= i < b.memes.len() ==> meme_wf(#[trigger] b.memes[i])
    &&& memes_ordered(b.memes)
    &&& forall|j: int| 0 <= j < b.rest.len() ==> (#[trigger] b.rest[j]).text.len() > 0
    &&& ordered(b.rest)
    &&& settled(b.rest)
    &&& separate(b.memes, b.rest)
}

/// Whether the last word of a line holds a face, so that the line ends
/// with a meme and not with leftover text.
pub open spec fn ends_in_meme(line: Seq<char>) -> bool {
    scan(line).pending is Some
}

/// The analysis of every line is sound, and nothing in it reaches beyond
/// the columns of the line.
pub proof fn lemma_analysis_wf(line: Seq<char>)
    ensures
        body_wf(analysis(line)),
        closed_wf(analysis(line).memes, analysis(line).rest, text_columns(line)),
{
    lemma_scan_wf(line);
    lemma_flush_wf(scan(line), line);
    assert(scan(line).column == text_columns(line)) by {
        reveal(scan_wf);
    }
    let end = flush(scan(line));
    lemma_regroup_wf(end.memes, end.rest, text_columns(line));
    lemma_regroup_settled(end.rest);
}

/// The leftover text, laid out as one line, never takes more columns than
/// the line it was taken from.
pub proof fn lemma_unified_columns_bound(line: Seq<char>)
    ensures
        text_columns(unify(analysis(line).rest)) <= text_columns(line),
{
    lemma_analysis_wf(line);
    let rest = analysis(line).rest;
    lemma_unify_columns(rest);
}

/// Width conservation: where a line does not end with a meme, the leftover
/// text, laid out as one line, takes exactly the columns of the line.
pub proof fn lemma_width_conservation(line: Seq<char>)
    requires
        !ends_in_meme(line),
    ensures
        text_columns(unify(analysis(line).rest)) == text_columns(line),
{
    lemma_scan_wf(line);
    lemma_flush_wf(scan(line), line);
    assert(scan(line).column == text_columns(line)) by {
        reveal(scan_wf);
    }
    let end = flush(scan(line));
    lemma_unify_regroup(end.rest);
    lemma_unify_columns(end.rest);
}

} // verus!
