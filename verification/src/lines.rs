//! Splits a text into its lines, and measures the grid that the lines take.

use crate::text::push_char;
use crate::width::str_width;
use crate::width::text_columns;
use vstd::prelude::*;

verus! {

/// The lines read so far, and the characters of the line that is being
/// read.
pub struct LineState {
    pub done: Seq<Seq<char>>,
    pub current: Seq<char>,
}

/// A line without the carriage return that may end it.
pub open spec fn strip_return(line: Seq<char>) -> Seq<char> {
    if line.len() > 0 && line.last() == '\r' {
        line.drop_last()
    } else {
        line
    }
}

/// One more character: a line feed ends the line, and takes with it a
/// carriage return that stands just before it.
pub open spec fn feed(s: LineState, c: char) -> LineState {
    if c == '\n' {
        LineState { done: s.done.push(strip_return(s.current)), current: Seq::empty() }
    } else {
        LineState { done: s.done, current: s.current.push(c) }
    }
}

/// The state after all the characters of a text.
pub open spec fn read_lines(text: Seq<char>) -> LineState
    decreases text.len(),
{
    if text.len() == 0 {
        LineState { done: Seq::empty(), current: Seq::empty() }
    } else {
        feed(read_lines(text.drop_last()), text.last())
    }
}

/// The lines of a text. A line ends at a line feed, or at a carriage return
/// and a line feed; the last line needs no line feed, and no empty line
/// follows the last line feed.
pub open spec fn lines_of(text: Seq<char>) -> Seq<Seq<char>> {
    let end = read_lines(text);
    if end.current.len() > 0 {
        end.done.push(end.current)
    } else {
        end.done
    }
}

/// The columns of the widest of the lines.
pub open spec fn longest(lines: Seq<Seq<char>>) -> nat
    decreases lines.len(),
{
    if lines.len() == 0 {
        0
    } else {
        let before = longest(lines.drop_last());
        let last = text_columns(lines.last());
        if last > before {
            last
        } else {
            before
        }
    }
}

/// The texts that a list of strings holds.
pub open spec fn texts_of(lines: Seq<String>) -> Seq<Seq<char>> {
    lines.map_values(|l: String| l@)
}

/// The text holds no line feed.
pub open spec fn feed_free(line: Seq<char>) -> bool {
    forall|k: int| 0 <= k < line.len() ==> #[trigger] line[k] != '\n'
}

/// No line holds a line feed.
pub proof fn lemma_lines_feed_free(text: Seq<char>)
    ensures
        forall|i: int| 0 <= i < lines_of(text).len() ==> feed_free(#[trigger] lines_of(text)[i]),
{
    lemma_read_lines_feed_free(text);
}

proof fn lemma_read_lines_feed_free(text: Seq<char>)
    ensures
        forall|i: int|
            0 <= i < read_lines(text).done.len() ==> feed_free(#[trigger] read_lines(text).done[i]),
        feed_free(read_lines(text).current),
    decreases text.len(),
{
    if text.len() > 0 {
        lemma_read_lines_feed_free(text.drop_last());
        let s = read_lines(text.drop_last());
        let n = read_lines(text);
        let c = text.last();
        if c == '\n' {
            let line = strip_return(s.current);
            assert forall|k: int| 0 <= k < line.len() implies #[trigger] line[k] != '\n' by {
                assert(line[k] == s.current[k]);
            }
            assert forall|i: int| 0 <= i < n.done.len() implies feed_free(#[trigger] n.done[i]) by {
                if i < s.done.len() {
                    assert(n.done[i] == s.done[i]);
                }
            }
        } else {
            assert forall|k: int| 0 <= k < n.current.len() implies #[trigger] n.current[k]
                != '\n' by {
                if k < s.current.len() {
                    assert(n.current[k] == s.current[k]);
                }
            }
        }
    }
}

/// The lines of a text.
pub fn split_lines(text: &str) -> (lines: Vec<String>)
    ensures
        texts_of(lines@) == lines_of(text@),
{
    let mut lines: Vec<String> = Vec::new();
    let mut current = String::new();
    let mut held_return: bool = false;
    for c in it: text.chars()
        invariant
            it.seq() == text@,
            texts_of(lines@) == read_lines(text@.take(it.index())).done,
            read_lines(text@.take(it.index())).current == if held_return {
                current@.push('\r')
            } else {
                current@
            },
            !held_return && current@.len() > 0 ==> current@.last() != '\r',
    {
        proof {
            let n = it.index();
            assert(text@.take(n + 1).drop_last() =~= text@.take(n));
        }
        let ghost before = texts_of(lines@);
        if c == '\n' {
            assert(strip_return(
                if held_return {
                    current@.push('\r')
                } else {
                    current@
                },
            ) =~= current@) by {
                if held_return {
                    assert(current@.push('\r').drop_last() =~= current@);
                }
            }
            lines.push(current);
            current = String::new();
            held_return = false;
            assert(texts_of(lines@) =~= before.push(texts_of(lines@).last()));
        } else {
            if held_return {
                push_char(&mut current, '\r');
            }
            if c == '\r' {
                held_return = true;
            } else {
                push_char(&mut current, c);
                held_return = false;
            }
        }
    }
    proof {
        assert(text@.take(text@.len() as int) =~= text@);
    }
    if held_return {
        push_char(&mut current, '\r');
    }
    if !current.as_str().is_empty() {
        let ghost before = texts_of(lines@);
        lines.push(current);
        assert(texts_of(lines@) =~= before.push(texts_of(lines@).last()));
    }
    lines
}

/// The grid that a text takes: the columns of its widest line, and the
/// number of its lines.
pub fn calc_dimension(s: &str) -> (dimension: (usize, usize))
    ensures
        dimension.0 == longest(lines_of(s@)),
        dimension.1 == lines_of(s@).len(),
{
    let lines = split_lines(s);
    let mut longest_width: usize = 0;
    let mut i: usize = 0;
    while i < lines.len()
        invariant
            i <= lines.len(),
            longest_width == longest(texts_of(lines@).take(i as int)),
        decreases lines.len() - i,
    {
        proof {
            let upto = texts_of(lines@).take(i + 1);
            assert(upto.drop_last() =~= texts_of(lines@).take(i as int));
            assert(upto.last() == lines@[i as int]@);
        }
        let line_width: usize = str_width(lines[i].as_str());
        if line_width > longest_width {
            longest_width = line_width;
        }
        i = i + 1;
    }
    proof {
        assert(texts_of(lines@).take(lines.len() as int) =~= texts_of(lines@));
    }
    (longest_width, lines.len())
}

} // verus!
