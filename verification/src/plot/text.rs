//! Colors as the rasterizers take them.

use crate::gr::Color;
use vstd::prelude::*;

verus! {

/// A color channel held to the range of a byte.
pub open spec fn channel(v: usize) -> u32 {
    if v > 255 {
        255u32
    } else {
        v as u32
    }
}

/// The channels, each held to the range of a byte, packed as `0xAARRGGBB`.
pub open spec fn packed(red: usize, green: usize, blue: usize, alpha: usize) -> u32 {
    (channel(alpha) * 0x100_0000 + channel(red) * 0x1_0000 + channel(green) * 0x100 + channel(
        blue,
    )) as u32
}

/// Packs a color into one number.
pub fn rgb_to_u32(red: usize, green: usize, blue: usize, alpha: usize) -> (c: u32)
    ensures
        c == packed(red, green, blue, alpha),
{
    let r: u32 = if red > 255 {
        255
    } else {
        red as u32
    };
    let g: u32 = if green > 255 {
        255
    } else {
        green as u32
    };
    let b: u32 = if blue > 255 {
        255
    } else {
        blue as u32
    };
    let a: u32 = if alpha > 255 {
        255
    } else {
        alpha as u32
    };
    a * 0x100_0000 + r * 0x1_0000 + g * 0x100 + b
}

/// The four channels of a color: opaque where it names no alpha, and none
/// for no color.
pub open spec fn channels(color: Color) -> Option<(u8, u8, u8, u8)> {
    match color {
        Color::NoColor => None,
        Color::Rgb(r, g, b) => Some((r, g, b, 255u8)),
        Color::Rgba(r, g, b, a) => Some((r, g, b, a)),
    }
}

/// The four channels of a color.
pub fn to_color(color: &Color) -> (c: Option<(u8, u8, u8, u8)>)
    ensures
        c == channels(*color),
{
    match color {
        Color::NoColor => None,
        Color::Rgb(r, g, b) => Some((*r, *g, *b, 255)),
        Color::Rgba(r, g, b, a) => Some((*r, *g, *b, *a)),
    }
}

} // verus!
