//! The scan as it runs: the state of the scan in owned text, and the steps
//! that take it from one character to the next.

use crate::body::fragments_of;
use crate::body::memes_of;
use crate::body::Body;
use crate::body::Head;
use crate::body::Meme;
use crate::body::MemeView;
use crate::classify::is_meme;
use crate::residual::regroup;
use crate::residual::regroup_rest_text;
use crate::scan::extend_right;
use crate::scan::flush;
use crate::scan::is_closing;
use crate::scan::start_state;
use crate::scan::step;
use crate::scan::step_given;
use crate::scan::ScanState;
use crate::text::push_char;
use crate::width::char_columns;
use crate::width::columns_of;
use vstd::prelude::*;

verus! {

/// The scan in progress.
pub struct Scanner {
    column: usize,
    index: usize,
    open: bool,
    word: String,
    word_column: usize,
    since_space: String,
    since_index: usize,
    left: String,
    left_index: usize,
    face: String,
    face_column: usize,
    face_index: usize,
    pending: Option<Meme>,
    memes: Vec<Meme>,
    rest: Vec<(usize, String)>,
}

/// The value of a face that may wait for the end of its word.
spec fn pending_of(pending: Option<Meme>) -> Option<MemeView> {
    match pending {
        Some(m) => Some(m@),
        None => None,
    }
}

impl Scanner {
    /// What the scan knows.
    pub closed spec fn state(&self) -> ScanState {
        ScanState {
            column: self.column as nat,
            index: self.index as nat,
            open: self.open,
            word: self.word@,
            word_column: self.word_column as nat,
            since_space: self.since_space@,
            since_index: self.since_index as nat,
            left: self.left@,
            left_index: self.left_index as nat,
            face: self.face@,
            face_column: self.face_column as nat,
            face_index: self.face_index as nat,
            pending: pending_of(self.pending),
            memes: memes_of(self.memes@),
            rest: fragments_of(self.rest@),
        }
    }

    /// A scan that has read nothing.
    pub fn new() -> (s: Scanner)
        ensures
            s.state() == start_state(),
    {
        let s = Scanner {
            column: 0,
            index: 0,
            open: false,
            word: String::new(),
            word_column: 0,
            since_space: String::new(),
            since_index: 0,
            left: String::new(),
            left_index: 0,
            face: String::new(),
            face_column: 0,
            face_index: 0,
            pending: None,
            memes: Vec::new(),
            rest: Vec::new(),
        };
        assert(s.state().memes =~= start_state().memes);
        assert(s.state().rest =~= start_state().rest);
        s
    }

    /// Closes the current word.
    fn flush(self) -> (s: Scanner)
        ensures
            s.state() == flush(self.state()),
    {
        let ghost before = self.state();
        let mut memes = self.memes;
        let mut rest = self.rest;
        match self.pending {
            Some(m) => {
                memes.push(m);
            },
            None => {
                if !self.word.as_str().is_empty() {
                    rest.push((self.word_column, self.word));
                }
            },
        }
        let s = Scanner {
            column: self.column,
            index: self.index,
            open: false,
            word: String::new(),
            word_column: self.column,
            since_space: String::new(),
            since_index: self.index,
            left: String::new(),
            left_index: self.index,
            face: String::new(),
            face_column: self.column,
            face_index: self.index,
            pending: None,
            memes,
            rest,
        };
        assert(s.state().memes =~= flush(before).memes);
        assert(s.state().rest =~= flush(before).rest);
        s
    }

    /// Gives a face that waits for the end of its word one more character
    /// on its right side.
    fn extend_right(pending: Option<Meme>, c: char, index: usize) -> (extended: Option<Meme>)
        ensures
            pending_of(extended) == extend_right(pending_of(pending), c, index as nat),
    {
        match pending {
            Some(m) => {
                let mut right_side = m.right_side;
                push_char(&mut right_side, c);
                Some(
                    Meme {
                        start_position: m.start_position,
                        head: m.head,
                        end_position: index,
                        left_side: m.left_side,
                        right_side,
                    },
                )
            },
            None => None,
        }
    }

    /// Whether the character closes the parenthesis that is open, so that
    /// the text since the opening one is to be judged.
    pub fn closes(&self, c: char) -> (b: bool)
        ensures
            b == is_closing(self.state(), c),
    {
        self.open && c == ')'
    }

    /// The text since the parenthesis was opened.
    pub fn face(&self) -> (face: &str)
        ensures
            face@ == self.state().face,
    {
        self.face.as_str()
    }

    /// Reads one more character, given the columns that it takes and, where
    /// it closes a parenthesis, the verdict on the text since the opening
    /// one.
    pub fn step_with(self, c: char, columns: usize, is_face: bool) -> (s: Scanner)
        requires
            self.state().column + columns <= usize::MAX,
            self.state().index < usize::MAX,
        ensures
            s.state() == step_given(self.state(), c, columns as nat, is_face),
    {
        proof {
            reveal(step_given);
        }
        let column: usize = self.column;
        let index: usize = self.index;
        let mut s = if c == ' ' && (self.pending.is_some() || !self.open) {
            let mut s = self.flush();
            push_char(&mut s.word, ' ');
            s.since_index = index + 1;
            assert(s.word@ =~= seq![' ']);
            s
        } else if self.open && c == ')' {
            let mut s = self;
            s.open = false;
            push_char(&mut s.word, c);
            push_char(&mut s.since_space, c);
            if is_face {
                let head = Head {
                    start_position: s.face_index,
                    startx: s.face_column,
                    face: s.face.clone(),
                    endx: column,
                    end_position: index,
                };
                s.pending = Some(
                    Meme {
                        start_position: s.left_index,
                        head,
                        end_position: index,
                        left_side: s.left.clone(),
                        right_side: String::new(),
                    },
                );
            } else {
                s.pending = Self::extend_right(s.pending, c, index);
            }
            s.face = String::new();
            s
        } else if self.open {
            let mut s = self;
            push_char(&mut s.word, c);
            if c == ' ' {
                s.since_space = String::new();
                s.since_index = index + 1;
            } else {
                push_char(&mut s.since_space, c);
            }
            push_char(&mut s.face, c);
            s.pending = Self::extend_right(s.pending, c, index);
            s
        } else if c == '(' {
            let mut s = self;
            s.open = true;
            s.left = s.since_space.clone();
            s.left_index = s.since_index;
            push_char(&mut s.word, c);
            push_char(&mut s.since_space, c);
            s.face = String::new();
            s.face_column = column;
            s.face_index = index;
            s.pending = Self::extend_right(s.pending, c, index);
            s
        } else {
            let mut s = self;
            push_char(&mut s.word, c);
            push_char(&mut s.since_space, c);
            s.pending = Self::extend_right(s.pending, c, index);
            s
        };
        s.column = column + columns;
        s.index = index + 1;
        s
    }

    /// Reads one more character.
    pub fn step(self, c: char) -> (s: Scanner)
        requires
            self.state().column + char_columns(c) <= usize::MAX,
            self.state().index < usize::MAX,
        ensures
            s.state() == step(self.state(), c),
    {
        proof {
            reveal(step_given);
        }
        let is_face = self.closes(c) && is_meme(self.face());
        self.step_with(c, columns_of(c), is_face)
    }

    /// Ends the line: the last word is closed, and the leftover runs that
    /// touch are joined.
    pub fn finish(self) -> (body: Body)
        ensures
            body@.memes == flush(self.state()).memes,
            body@.rest == regroup(flush(self.state()).rest),
    {
        let end = self.flush();
        Body { memes: end.memes, rest_str: regroup_rest_text(&end.rest) }
    }
}

} // verus!
