//! What the analysis of one line yields: the faces found, each with the
//! words that touch it, and the text that is left over.

use vstd::prelude::*;

verus! {

/// A face: the text between a pair of parentheses that was taken for an
/// emoticon, with the place of the two parentheses.
#[derive(Clone, Debug)]
pub struct Head {
    /// Index of the opening parenthesis, counted in characters.
    pub start_position: usize,
    /// Column of the opening parenthesis.
    pub startx: usize,
    /// The text between the parentheses.
    pub face: String,
    /// Column of the closing parenthesis.
    pub endx: usize,
    /// Index of the closing parenthesis, counted in characters.
    pub end_position: usize,
}

/// A face together with the words that touch it on either side.
#[derive(Clone, Debug)]
pub struct Meme {
    /// Index of the first character of the unit.
    pub start_position: usize,
    pub head: Head,
    /// Index of the last character of the unit.
    pub end_position: usize,
    /// The text between the last space and the opening parenthesis.
    pub left_side: String,
    /// The text between the closing parenthesis and the next space.
    pub right_side: String,
}

/// The analysis of one line.
#[derive(Debug)]
pub struct Body {
    /// The faces, from left to right.
    pub memes: Vec<Meme>,
    /// The text outside the faces: runs of characters, each with the column
    /// at which it starts, from left to right.
    pub rest_str: Vec<(usize, String)>,
}

/// The mathematical value of a [`Head`].
pub struct HeadView {
    pub start_position: nat,
    pub startx: nat,
    pub face: Seq<char>,
    pub endx: nat,
    pub end_position: nat,
}

/// The mathematical value of a [`Meme`].
pub struct MemeView {
    pub start_position: nat,
    pub head: HeadView,
    pub end_position: nat,
    pub left_side: Seq<char>,
    pub right_side: Seq<char>,
}

/// A run of leftover text and the column at which it starts.
pub struct Fragment {
    pub start: nat,
    pub text: Seq<char>,
}

/// The mathematical value of a [`Body`].
pub struct BodyView {
    pub memes: Seq<MemeView>,
    pub rest: Seq<Fragment>,
}

impl View for Head {
    type V = HeadView;

    open spec fn view(&self) -> HeadView {
        HeadView {
            start_position: self.start_position as nat,
            startx: self.startx as nat,
            face: self.face@,
            endx: self.endx as nat,
            end_position: self.end_position as nat,
        }
    }
}

impl View for Meme {
    type V = MemeView;

    open spec fn view(&self) -> MemeView {
        MemeView {
            start_position: self.start_position as nat,
            head: self.head@,
            end_position: self.end_position as nat,
            left_side: self.left_side@,
            right_side: self.right_side@,
        }
    }
}

/// The fragment that a pair of column and text stands for.
pub open spec fn fragment_of(pair: (usize, String)) -> Fragment {
    Fragment { start: pair.0 as nat, text: pair.1@ }
}

/// The fragments that a list of pairs stands for.
pub open spec fn fragments_of(pairs: Seq<(usize, String)>) -> Seq<Fragment> {
    pairs.map_values(|p: (usize, String)| fragment_of(p))
}

/// The values of a list of memes.
pub open spec fn memes_of(memes: Seq<Meme>) -> Seq<MemeView> {
    memes.map_values(|m: Meme| m@)
}

impl View for Body {
    type V = BodyView;

    open spec fn view(&self) -> BodyView {
        BodyView { memes: memes_of(self.memes@), rest: fragments_of(self.rest_str@) }
    }
}

impl Head {
    /// The columns between the two parentheses, the opening one included.
    pub fn distance(&self) -> (d: usize)
        requires
            self.startx <= self.endx,
        ensures
            d == self.endx - self.startx,
    {
        self.endx - self.startx
    }
}

impl Body {
    /// Whether the line holds a face at all.
    pub fn has_memes(&self) -> (b: bool)
        ensures
            b == (self@.memes.len() > 0),
    {
        !self.memes.is_empty()
    }
}

} // verus!
