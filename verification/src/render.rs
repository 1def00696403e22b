//! From a text of several lines to what is drawn for it, and to the text
//! that stays beside the drawing.

use crate::body::Body;
use crate::layout::memes_elements;
use crate::layout::primitives_of;
use crate::layout::spans;
use crate::layout::Primitive;
use crate::layout::PrimitiveView;
use crate::lines::calc_dimension;
use crate::lines::lines_of;
use crate::lines::longest;
use crate::lines::split_lines;
use crate::lines::texts_of;
use crate::parse::analysis;
use crate::parse::parse_memes;
use crate::residual::unify;
use crate::shape::body_wf;
use crate::shape::meme_wf;
use crate::text::push_char;
use vstd::prelude::*;
use vstd::string::StringExecFns;

verus! {

/// The rules that style the drawing: lines and circles are stroked in
/// black, circles are filled white, and the parentheses of a face, which
/// the circle stands for, are not painted.
pub const STYLES: &'static str = "
    line, path {
      stroke: black;
      stroke-width: 2;
      stroke-opacity: 1;
      fill-opacity: 1;
      stroke-linecap: round;
      stroke-linejoin: miter;
    }
    circle {
      stroke: black;
      stroke-width: 1;
      stroke-opacity: 1;
      fill-opacity: 1;
      stroke-linecap: round;
      stroke-linejoin: miter;
      fill:white;
    }
    tspan.head{
        fill: none;
        stroke: none;
    }
    ";

/// The rows that a drawing leaves free below its last line.
pub const ROWS_BELOW: u128 = 2;

/// A drawing: its size on the grid, what styles it, and what it holds.
#[derive(Debug)]
pub struct Document {
    /// The width, in half columns.
    pub width: u128,
    /// The height, in quarter rows.
    pub height: u128,
    /// The style rules.
    pub styles: String,
    /// What is drawn, line by line from the top.
    pub elements: Vec<Primitive>,
}

/// What is drawn for one line in row `y`.
pub open spec fn line_elements(line: Seq<char>, y: nat) -> Seq<PrimitiveView> {
    memes_elements(analysis(line).memes, y)
}

/// What is drawn for lines that stand in the rows from 0 on.
pub open spec fn lines_elements(lines: Seq<Seq<char>>) -> Seq<PrimitiveView>
    decreases lines.len(),
{
    if lines.len() == 0 {
        Seq::empty()
    } else {
        lines_elements(lines.drop_last()) + line_elements(
            lines.last(),
            (lines.len() - 1) as nat,
        )
    }
}

/// What stays of a line beside the drawing: the leftover text, laid out
/// at its columns, where the line holds a meme; the line itself otherwise.
pub open spec fn line_residue(line: Seq<char>) -> Seq<char> {
    if analysis(line).memes.len() > 0 {
        unify(analysis(line).rest)
    } else {
        line
    }
}

/// What stays of the lines, each ended by a line feed.
pub open spec fn lines_residue(lines: Seq<Seq<char>>) -> Seq<char>
    decreases lines.len(),
{
    if lines.len() == 0 {
        Seq::empty()
    } else {
        lines_residue(lines.drop_last()) + line_residue(lines.last()).push('\n')
    }
}

proof fn lemma_body_spans(body: Body)
    requires
        body_wf(body@),
    ensures
        forall|i: int| 0 <= i < body@.memes.len() ==> spans(#[trigger] body@.memes[i].head),
{
    assert forall|i: int| 0 <= i < body@.memes.len() implies spans(
        #[trigger] body@.memes[i].head,
    ) by {
        assert(meme_wf(body@.memes[i]));
    }
}

/// The style rules of a drawing.
pub fn get_styles() -> (styles: String)
    ensures
        styles@ == STYLES@,
{
    String::from_str(STYLES)
}

/// What is drawn for the line `s` in row `y`.
pub fn get_svg_elements(y: usize, s: &str) -> (elements: Vec<Primitive>)
    ensures
        primitives_of(elements@) == line_elements(s@, y as nat),
{
    let body = parse_memes(s);
    proof {
        lemma_body_spans(body);
    }
    body.get_svg_elements(y)
}

/// What is drawn for the line `s` in row `y`, with what stays of the line
/// beside it; nothing where the line holds no meme.
pub fn line_to_svg_with_excess_str(y: usize, s: &str) -> (found: Option<(Vec<Primitive>, String)>)
    ensures
        match found {
            Some((nodes, rest_text)) => {
                &&& analysis(s@).memes.len() > 0
                &&& primitives_of(nodes@) == line_elements(s@, y as nat)
                &&& rest_text@ == line_residue(s@)
            },
            None => analysis(s@).memes.len() == 0,
        },
{
    let body = parse_memes(s);
    if body.has_memes() {
        proof {
            lemma_body_spans(body);
        }
        let nodes = body.get_svg_elements(y);
        Some((nodes, body.unify_rest_text()))
    } else {
        None
    }
}

/// What is drawn for a text, its lines in the rows from 0 on.
pub fn to_svg_lines(s: &str) -> (elements: Vec<Primitive>)
    ensures
        primitives_of(elements@) == lines_elements(lines_of(s@)),
{
    let lines = split_lines(s);
    let mut elements: Vec<Primitive> = Vec::new();
    let mut y: usize = 0;
    while y < lines.len()
        invariant
            y <= lines.len(),
            texts_of(lines@) == lines_of(s@),
            primitives_of(elements@) == lines_elements(lines_of(s@).take(y as int)),
        decreases lines.len() - y,
    {
        proof {
            let upto = lines_of(s@).take(y + 1);
            assert(upto.drop_last() =~= lines_of(s@).take(y as int));
            assert(upto.last() == lines@[y as int]@);
        }
        let ghost before = primitives_of(elements@);
        let mut line_elm = get_svg_elements(y, lines[y].as_str());
        let ghost added = primitives_of(line_elm@);
        elements.append(&mut line_elm);
        assert(primitives_of(elements@) =~= before + added);
        y = y + 1;
    }
    proof {
        assert(lines_of(s@).take(lines.len() as int) =~= lines_of(s@));
    }
    elements
}

/// What is drawn for a text, and what stays of the text beside the
/// drawing: of a line with a meme its leftover text, any other line whole.
pub fn get_meme_svg(input: &str) -> (drawn: (Vec<Primitive>, String))
    ensures
        primitives_of(drawn.0@) == lines_elements(lines_of(input@)),
        drawn.1@ == lines_residue(lines_of(input@)),
{
    let lines = split_lines(input);
    let mut svg_elements: Vec<Primitive> = Vec::new();
    let mut relines = String::new();
    let mut y: usize = 0;
    while y < lines.len()
        invariant
            y <= lines.len(),
            texts_of(lines@) == lines_of(input@),
            primitives_of(svg_elements@) == lines_elements(lines_of(input@).take(y as int)),
            relines@ == lines_residue(lines_of(input@).take(y as int)),
        decreases lines.len() - y,
    {
        proof {
            let upto = lines_of(input@).take(y + 1);
            assert(upto.drop_last() =~= lines_of(input@).take(y as int));
            assert(upto.last() == lines@[y as int]@);
        }
        let ghost before = primitives_of(svg_elements@);
        let ghost text_before = relines@;
        let line = lines[y].as_str();
        match line_to_svg_with_excess_str(y, line) {
            Some((svg_elm, rest_text)) => {
                let mut svg_elm = svg_elm;
                let ghost added = primitives_of(svg_elm@);
                relines.append(rest_text.as_str());
                push_char(&mut relines, '\n');
                svg_elements.append(&mut svg_elm);
                assert(primitives_of(svg_elements@) =~= before + added);
            },
            None => {
                relines.append(line);
                push_char(&mut relines, '\n');
                assert(line_elements(line@, y as nat) =~= Seq::<PrimitiveView>::empty());
                assert(primitives_of(svg_elements@) =~= before + line_elements(line@, y as nat));
            },
        }
        assert(relines@ =~= text_before + line_residue(line@).push('\n'));
        y = y + 1;
    }
    proof {
        assert(lines_of(input@).take(lines.len() as int) =~= lines_of(input@));
    }
    (svg_elements, relines)
}

/// The drawing for a text: as wide as the widest line, two rows higher
/// than the lines, with the style rules and what is drawn for the lines.
pub fn to_svg(s: &str) -> (document: Document)
    ensures
        document.width == 2 * longest(lines_of(s@)),
        document.height == 4 * (lines_of(s@).len() + ROWS_BELOW),
        document.styles@ == STYLES@,
        primitives_of(document.elements@) == lines_elements(lines_of(s@)),
{
    let elements = to_svg_lines(s);
    let (wide, high) = calc_dimension(s);
    Document {
        width: 2 * (wide as u128),
        height: 4 * ((high as u128) + ROWS_BELOW),
        styles: get_styles(),
        elements,
    }
}

} // verus!
