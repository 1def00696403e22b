//! Lays the memes out on the character grid: a circle round each face, the
//! face in its middle, and the words that touch it on either side.
//!
//! Places are exact fractions of a cell, so that no rounding is made here:
//! across, the unit is half a column; down, it is a quarter of a row.

use crate::body::Body;
use crate::body::Head;
use crate::body::HeadView;
use crate::body::Meme;
use crate::body::MemeView;
use crate::escape::escape_str;
use crate::escape::escaped;
use vstd::prelude::*;
use vstd::string::StringExecFns;

verus! {

/// The point of a text that is put at its place.
#[derive(Clone, Copy, Debug, PartialEq, Eq, Structural)]
pub enum Anchor {
    /// The text starts at the place.
    Start,
    /// The text is centred on the place.
    Middle,
    /// The text ends at the place.
    End,
}

/// A circle on the grid.
#[derive(Clone, Copy, Debug, PartialEq, Eq, Structural)]
pub struct Circle {
    /// The centre, in half columns from the left edge.
    pub cx: u128,
    /// The centre, in quarter rows from the top edge.
    pub cy: u128,
    /// The radius, in half columns.
    pub r: u128,
}

/// A text on the grid.
#[derive(Clone, Debug)]
pub struct Text {
    /// The place of the anchor, in half columns from the left edge.
    pub x: u128,
    /// The baseline, in quarter rows from the top edge.
    pub y: u128,
    pub anchor: Anchor,
    /// The content, escaped and ready for markup.
    pub content: String,
}

/// One thing to draw.
#[derive(Clone, Debug)]
pub enum Primitive {
    Circle(Circle),
    Text(Text),
}

/// The mathematical value of a [`Circle`].
pub struct CircleView {
    pub cx: nat,
    pub cy: nat,
    pub r: nat,
}

impl View for Circle {
    type V = CircleView;

    open spec fn view(&self) -> CircleView {
        CircleView { cx: self.cx as nat, cy: self.cy as nat, r: self.r as nat }
    }
}

/// The mathematical value of a [`Text`].
pub struct TextView {
    pub x: nat,
    pub y: nat,
    pub anchor: Anchor,
    pub content: Seq<char>,
}

/// The mathematical value of a [`Primitive`].
pub enum PrimitiveView {
    Circle(CircleView),
    Text(TextView),
}

impl View for Text {
    type V = TextView;

    open spec fn view(&self) -> TextView {
        TextView { x: self.x as nat, y: self.y as nat, anchor: self.anchor, content: self.content@ }
    }
}

impl View for Primitive {
    type V = PrimitiveView;

    open spec fn view(&self) -> PrimitiveView {
        match *self {
            Primitive::Circle(c) => PrimitiveView::Circle(c@),
            Primitive::Text(t) => PrimitiveView::Text(t@),
        }
    }
}

/// The values of a list of primitives.
pub open spec fn primitives_of(elements: Seq<Primitive>) -> Seq<PrimitiveView> {
    elements.map_values(|p: Primitive| p@)
}

/// The middle of a row, in quarter rows from the top edge.
pub open spec fn row_middle(y: nat) -> nat {
    4 * y + 2
}

/// The baseline of the text of a row, in quarter rows from the top edge:
/// three quarters of the row down.
pub open spec fn row_baseline(y: nat) -> nat {
    4 * y + 3
}

/// Whether the closing parenthesis of a head stands at or behind the
/// opening one.
pub open spec fn spans(h: HeadView) -> bool {
    h.startx <= h.endx
}

/// What opens the text of a face: the parenthesis, in a span of its own.
pub open spec fn face_opening() -> Seq<char> {
    "<tspan class='head'>(</tspan>"@
}

/// What closes the text of a face: the parenthesis, in a span of its own.
pub open spec fn face_closing() -> Seq<char> {
    "<tspan class='head'>)</tspan>"@
}

/// The circle round a head in row `y`: its centre half way between the
/// two parentheses and in the middle of the row, its radius half the
/// distance between them.
pub open spec fn head_circle(h: HeadView, y: nat) -> CircleView {
    CircleView { cx: h.startx + h.endx, cy: row_middle(y), r: (h.endx - h.startx) as nat }
}

/// The text of a face in row `y`: centred on the circle, between two
/// parentheses that stand in spans of their own.
pub open spec fn face_label(h: HeadView, y: nat) -> TextView {
    TextView {
        x: h.startx + h.endx,
        y: row_baseline(y),
        anchor: Anchor::Middle,
        content: face_opening() + escaped(h.face) + face_closing(),
    }
}

/// A text put with its anchor at a column of row `y`.
pub open spec fn side_label(text: Seq<char>, column: nat, y: nat, anchor: Anchor) -> TextView {
    TextView { x: 2 * column, y: row_baseline(y), anchor, content: escaped(text) }
}

/// What is drawn for a head: the circle, then the face.
pub open spec fn head_elements(h: HeadView, y: nat) -> Seq<PrimitiveView> {
    seq![PrimitiveView::Circle(head_circle(h, y)), PrimitiveView::Text(face_label(h, y))]
}

/// What is drawn for a meme: the left side, ending at the opening
/// parenthesis; the head; the right side, starting at the closing one.
pub open spec fn meme_elements(m: MemeView, y: nat) -> Seq<PrimitiveView> {
    seq![PrimitiveView::Text(side_label(m.left_side, m.head.startx, y, Anchor::End))]
        + head_elements(m.head, y) + seq![
        PrimitiveView::Text(side_label(m.right_side, m.head.endx, y, Anchor::Start)),
    ]
}

/// What is drawn for the memes of a line, from left to right.
pub open spec fn memes_elements(memes: Seq<MemeView>, y: nat) -> Seq<PrimitiveView>
    decreases memes.len(),
{
    if memes.len() == 0 {
        Seq::empty()
    } else {
        memes_elements(memes.drop_last(), y) + meme_elements(memes.last(), y)
    }
}

/// Puts text that is already escaped at a place of the grid.
pub fn to_svg_text_escaped(s: &str, x: u128, y: usize, anchor: Anchor) -> (text: Text)
    ensures
        text@ == (TextView { x: x as nat, y: row_baseline(y as nat), anchor, content: s@ }),
{
    Text { x, y: 4 * (y as u128) + 3, anchor, content: String::from_str(s) }
}

/// Escapes a text and puts it with its anchor at column `x` of row `y`.
pub fn to_svg_text(s: &str, x: usize, y: usize, anchor: Anchor) -> (text: Text)
    ensures
        text@ == side_label(s@, x as nat, y as nat, anchor),
{
    let escaped_text = escape_str(s);
    to_svg_text_escaped(escaped_text.as_str(), 2 * (x as u128), y, anchor)
}

impl Head {
    /// The circle round the face in row `y`.
    pub fn calc_circle(&self, y: usize) -> (circle: Circle)
        requires
            spans(self@),
        ensures
            circle@ == head_circle(self@, y as nat),
    {
        Circle {
            cx: (self.startx as u128) + (self.endx as u128),
            cy: 4 * (y as u128) + 2,
            r: self.distance() as u128,
        }
    }

    /// The text of the face in row `y`.
    pub fn get_face_text(&self, y: usize) -> (text: Text)
        requires
            spans(self@),
        ensures
            text@ == face_label(self@, y as nat),
    {
        let c = self.calc_circle(y);
        let mut face = String::from_str("<tspan class='head'>(</tspan>");
        face.append(escape_str(self.face.as_str()).as_str());
        face.append("<tspan class='head'>)</tspan>");
        to_svg_text_escaped(face.as_str(), c.cx, y, Anchor::Middle)
    }

    /// What is drawn for the head in row `y`.
    pub fn get_svg_elements(&self, y: usize) -> (elements: Vec<Primitive>)
        requires
            spans(self@),
        ensures
            primitives_of(elements@) == head_elements(self@, y as nat),
    {
        let mut elements: Vec<Primitive> = Vec::new();
        elements.push(Primitive::Circle(self.calc_circle(y)));
        elements.push(Primitive::Text(self.get_face_text(y)));
        assert(primitives_of(elements@) =~= head_elements(self@, y as nat));
        elements
    }
}

impl Meme {
    /// What is drawn for the meme in row `y`.
    pub fn get_svg_elements(&self, y: usize) -> (elements: Vec<Primitive>)
        requires
            spans(self@.head),
        ensures
            primitives_of(elements@) == meme_elements(self@, y as nat),
    {
        let mut elements: Vec<Primitive> = Vec::new();
        let left_text = to_svg_text(self.left_side.as_str(), self.head.startx, y, Anchor::End);
        elements.push(Primitive::Text(left_text));
        elements.push(Primitive::Circle(self.head.calc_circle(y)));
        elements.push(Primitive::Text(self.head.get_face_text(y)));
        let right_text = to_svg_text(self.right_side.as_str(), self.head.endx, y, Anchor::Start);
        elements.push(Primitive::Text(right_text));
        assert(primitives_of(elements@) =~= meme_elements(self@, y as nat));
        elements
    }
}

impl Body {
    /// What is drawn for the memes of the line in row `y`.
    pub fn get_svg_elements(&self, y: usize) -> (elements: Vec<Primitive>)
        requires
            forall|i: int| 0 <= i < self@.memes.len() ==> spans(#[trigger] self@.memes[i].head),
        ensures
            primitives_of(elements@) == memes_elements(self@.memes, y as nat),
    {
        let mut elements: Vec<Primitive> = Vec::new();
        let mut i: usize = 0;
        while i < self.memes.len()
            invariant
                i <= self.memes.len(),
                forall|i: int| 0 <= i < self@.memes.len() ==> spans(#[trigger] self@.memes[i].head),
                primitives_of(elements@) == memes_elements(self@.memes.take(i as int), y as nat),
            decreases self.memes.len() - i,
        {
            proof {
                let upto = self@.memes.take(i + 1);
                assert(upto.drop_last() =~= self@.memes.take(i as int));
                assert(upto.last() == self.memes@[i as int]@);
                assert(spans(self@.memes[i as int].head));
            }
            let ghost before = primitives_of(elements@);
            let mut more = self.memes[i].get_svg_elements(y);
            let ghost added = primitives_of(more@);
            elements.append(&mut more);
            assert(primitives_of(elements@) =~= before + added);
            i = i + 1;
        }
        proof {
            assert(self@.memes.take(self.memes.len() as int) =~= self@.memes);
        }
        elements
    }
}

} // verus!
