//! What a text needs before its glyphs are drawn: the face, the colour and
//! the pixels of a glyph.

use crate::gr::{Color, Effects};
use vstd::prelude::*;

verus! {

/// The face that is taken where a text names none.
pub const DEFAULT_FACE: &'static str = "osifont";

/// A drawn glyph: its place, its size and its pixels, four bytes each.
#[derive(Debug)]
pub struct GlyphItem {
    /// The left edge.
    pub x: u32,
    /// The upper edge.
    pub y: u32,
    /// The width in pixels.
    pub width: u32,
    /// The height in pixels.
    pub height: u32,
    /// Red, green, blue and coverage of each pixel.
    pub data: Vec<u8>,
}

/// The face of a text: the one that its effects name, else the default.
pub open spec fn face_of(effects: Effects) -> Seq<char> {
    match effects.font.face {
        Some(face) => face@,
        None => DEFAULT_FACE@,
    }
}

/// The face of a text.
pub fn get_face(effects: &Effects) -> (r: String)
    ensures
        r@ == face_of(*effects),
{
    match &effects.font.face {
        Some(face) => face.clone(),
        None => DEFAULT_FACE.to_string(),
    }
}

/// The red, green and blue of the colour in which a text is drawn: white
/// for no colour. A text without a colour has none.
pub open spec fn glyph_color(effects: Effects) -> Option<(u8, u8, u8)> {
    match effects.font.color {
        None => None,
        Some(Color::NoColor) => Some((255u8, 255u8, 255u8)),
        Some(Color::Rgb(r, g, b)) => Some((r, g, b)),
        Some(Color::Rgba(r, g, b, _)) => Some((r, g, b)),
    }
}

/// The colour in which a text is drawn.
pub fn color_of_text(effects: &Effects) -> (r: Option<(u8, u8, u8)>)
    ensures
        r == glyph_color(*effects),
{
    match effects.font.color {
        None => None,
        Some(Color::NoColor) => Some((255, 255, 255)),
        Some(Color::Rgb(r, g, b)) => Some((r, g, b)),
        Some(Color::Rgba(r, g, b, _)) => Some((r, g, b)),
    }
}

/// The pixels of a glyph: for each coverage value the colour and the value.
pub open spec fn pixels_of(color: (u8, u8, u8), coverage: Seq<u8>) -> Seq<u8> {
    Seq::new(
        4 * coverage.len(),
        |i: int|
            if i % 4 == 0 {
                color.0
            } else if i % 4 == 1 {
                color.1
            } else if i % 4 == 2 {
                color.2
            } else {
                coverage[i / 4]
            },
    )
}

/// The pixels of a glyph.
pub fn pixels(color: (u8, u8, u8), coverage: &Vec<u8>) -> (r: Vec<u8>)
    ensures
        r@ == pixels_of(color, coverage@),
{
    let mut buffer: Vec<u8> = Vec::new();
    let mut i: usize = 0;
    while i < coverage.len()
        invariant
            i <= coverage.len(),
            buffer@.len() == 4 * i,
            forall|k: int| 0 <= k < buffer@.len() ==> buffer@[k] == pixels_of(color, coverage@)[k],
        decreases coverage.len() - i,
    {
        buffer.push(color.0);
        buffer.push(color.1);
        buffer.push(color.2);
        buffer.push(coverage[i]);
        i += 1;
    }
    assert(buffer@ =~= pixels_of(color, coverage@));
    buffer
}

impl GlyphItem {
    /// The drawn glyph at a place, from its size and its coverage values. A
    /// glyph without width gives none.
    pub fn new(
        x: u32,
        y: u32,
        width: u32,
        height: u32,
        color: (u8, u8, u8),
        coverage: &Vec<u8>,
    ) -> (r: Option<GlyphItem>)
        ensures
            r is Some <==> width > 0,
            r matches Some(g) ==> g.x == x && g.y == y && g.width == width && g.height == height
                && g.data@ == pixels_of(color, coverage@),
    {
        if width > 0 {
            Some(GlyphItem { x, y, width, height, data: pixels(color, coverage) })
        } else {
            None
        }
    }
}

} // verus!
