//! The left-to-right scan of one line, as a state machine over characters.
//!
//! The scan cuts the line into words at the spaces that stand outside
//! parentheses. A word in which a pair of parentheses holds a face becomes a
//! meme: the face, the text between the last space and the opening
//! parenthesis, and the text between the closing parenthesis and the next
//! space. Every other word is leftover text, with the space that starts it
//! and with all that its parentheses hold: text in parentheses that is no
//! face is not lost, nor is text behind a parenthesis that is never closed.
//! What stands before the left side of a meme in its own word, such as the
//! space that starts the word, belongs neither to the meme nor to the
//! leftover text; its columns stay free.

use crate::body::Fragment;
use crate::body::HeadView;
use crate::body::MemeView;
use crate::classify::face_text;
use crate::width::char_columns;
use vstd::prelude::*;

verus! {

/// What the scan knows after a prefix of the line.
pub struct ScanState {
    /// Columns taken by the characters read so far.
    pub column: nat,
    /// Number of characters read so far.
    pub index: nat,
    /// Whether an opening parenthesis waits for its closing one.
    pub open: bool,
    /// The characters read since the last boundary, the space that made
    /// the boundary included.
    pub word: Seq<char>,
    /// Column at which `word` starts.
    pub word_column: nat,
    /// The characters read since the last space.
    pub since_space: Seq<char>,
    /// Index of the first character of `since_space`.
    pub since_index: nat,
    /// What `since_space` held when the parenthesis was opened.
    pub left: Seq<char>,
    /// Index of the first character of `left`.
    pub left_index: nat,
    /// The characters read since the parenthesis was opened.
    pub face: Seq<char>,
    /// Column of the opening parenthesis.
    pub face_column: nat,
    /// Index of the opening parenthesis.
    pub face_index: nat,
    /// The face found in the current word, if any, with its two sides.
    pub pending: Option<MemeView>,
    /// The memes of the words that are closed.
    pub memes: Seq<MemeView>,
    /// The leftover text of the words that are closed.
    pub rest: Seq<Fragment>,
}

/// The state before the first character.
pub open spec fn start_state() -> ScanState {
    ScanState {
        column: 0,
        index: 0,
        open: false,
        word: Seq::empty(),
        word_column: 0,
        since_space: Seq::empty(),
        since_index: 0,
        left: Seq::empty(),
        left_index: 0,
        face: Seq::empty(),
        face_column: 0,
        face_index: 0,
        pending: None,
        memes: Seq::empty(),
        rest: Seq::empty(),
    }
}

/// Closes the current word: with a face it becomes a meme, without one
/// its characters, if it has any, become leftover text. Nothing of the
/// word is kept, an open parenthesis neither.
pub open spec fn flush(s: ScanState) -> ScanState {
    ScanState {
        column: s.column,
        index: s.index,
        open: false,
        word: Seq::empty(),
        word_column: s.column,
        since_space: Seq::empty(),
        since_index: s.index,
        left: Seq::empty(),
        left_index: s.index,
        face: Seq::empty(),
        face_column: s.column,
        face_index: s.index,
        pending: None,
        memes: match s.pending {
            Some(m) => s.memes.push(m),
            None => s.memes,
        },
        rest: if s.pending is None && s.word.len() > 0 {
            s.rest.push(Fragment { start: s.word_column, text: s.word })
        } else {
            s.rest
        },
    }
}

/// A face that waits for the end of its word takes one more character on
/// its right side.
pub open spec fn extend_right(pending: Option<MemeView>, c: char, index: nat) -> Option<MemeView> {
    match pending {
        Some(m) => Some(MemeView { right_side: m.right_side.push(c), end_position: index, ..m }),
        None => None,
    }
}

/// Whether a character ends the current word: a space does, unless it
/// stands inside a parenthesis that no face precedes.
pub open spec fn is_boundary(s: ScanState, c: char) -> bool {
    c == ' ' && (s.pending is Some || !s.open)
}

/// A space ends the word and begins the next one.
pub open spec fn at_boundary(s: ScanState) -> ScanState {
    ScanState { word: seq![' '], since_index: s.index + 1, ..flush(s) }
}

/// The closing parenthesis, with the verdict on the text since the opening
/// one: a face takes the place of any earlier face of the same word.
pub open spec fn at_close(s: ScanState, is_face: bool) -> ScanState {
    ScanState {
        open: false,
        word: s.word.push(')'),
        since_space: s.since_space.push(')'),
        face: Seq::empty(),
        pending: if is_face {
            Some(
                MemeView {
                    start_position: s.left_index,
                    head: HeadView {
                        start_position: s.face_index,
                        startx: s.face_column,
                        face: s.face,
                        endx: s.column,
                        end_position: s.index,
                    },
                    end_position: s.index,
                    left_side: s.left,
                    right_side: Seq::empty(),
                },
            )
        } else {
            extend_right(s.pending, ')', s.index)
        },
        ..s
    }
}

/// A character between the parentheses.
pub open spec fn at_inside(s: ScanState, c: char) -> ScanState {
    ScanState {
        word: s.word.push(c),
        since_space: if c == ' ' {
            Seq::empty()
        } else {
            s.since_space.push(c)
        },
        since_index: if c == ' ' {
            s.index + 1
        } else {
            s.since_index
        },
        face: s.face.push(c),
        pending: extend_right(s.pending, c, s.index),
        ..s
    }
}

/// The opening parenthesis: the text since the last space becomes the
/// left side of the face that may follow.
pub open spec fn at_open(s: ScanState) -> ScanState {
    ScanState {
        open: true,
        word: s.word.push('('),
        since_space: s.since_space.push('('),
        left: s.since_space,
        left_index: s.since_index,
        face: Seq::empty(),
        face_column: s.column,
        face_index: s.index,
        pending: extend_right(s.pending, '(', s.index),
        ..s
    }
}

/// Any other character outside parentheses.
pub open spec fn at_plain(s: ScanState, c: char) -> ScanState {
    ScanState {
        word: s.word.push(c),
        since_space: s.since_space.push(c),
        pending: extend_right(s.pending, c, s.index),
        ..s
    }
}

/// Whether a character closes the parenthesis that is open.
pub open spec fn is_closing(s: ScanState, c: char) -> bool {
    s.open && c == ')'
}

/// The state after one more character, given the columns that the
/// character takes and, where it closes a parenthesis, the verdict on the
/// text since the opening one.
#[verifier::opaque]
pub open spec fn step_given(s: ScanState, c: char, columns: nat, is_face: bool) -> ScanState {
    let t = if is_boundary(s, c) {
        at_boundary(s)
    } else if s.open && c == ')' {
        at_close(s, is_face)
    } else if s.open {
        at_inside(s, c)
    } else if c == '(' {
        at_open(s)
    } else {
        at_plain(s, c)
    };
    ScanState { column: s.column + columns, index: s.index + 1, ..t }
}

/// The state after one more character.
pub open spec fn step(s: ScanState, c: char) -> ScanState {
    step_given(s, c, char_columns(c), face_text(s.face))
}

/// The state after all the characters of a text.
pub open spec fn scan(line: Seq<char>) -> ScanState
    decreases line.len(),
{
    if line.len() == 0 {
        start_state()
    } else {
        step(scan(line.drop_last()), line.last())
    }
}

} // verus!
