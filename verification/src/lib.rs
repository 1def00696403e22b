//! Finds parenthesised emoticon faces in lines of text and lays out the
//! circles and anchored labels that highlight them.

pub mod body;
pub mod classify;
pub mod escape;
pub mod layout;
pub mod lines;
pub mod parse;
pub mod render;
pub mod residual;
pub mod scan;
pub mod scanner;
pub mod shape;
pub mod text;
pub mod width;

pub use crate::body::Body;
pub use crate::body::Head;
pub use crate::body::Meme;
pub use crate::classify::is_alphanumeric_space_operator;
pub use crate::classify::is_expression;
pub use crate::classify::is_meme;
pub use crate::classify::is_operator;
pub use crate::escape::escape_char;
pub use crate::escape::escape_str;
pub use crate::layout::Anchor;
pub use crate::layout::Circle;
pub use crate::layout::Primitive;
pub use crate::layout::Text;
pub use crate::lines::calc_dimension;
pub use crate::parse::parse_memes;
pub use crate::render::get_meme_svg;
pub use crate::render::get_styles;
pub use crate::render::get_svg_elements;
pub use crate::render::to_svg;
pub use crate::render::to_svg_lines;
pub use crate::render::Document;
pub use crate::residual::regroup_rest_text;
