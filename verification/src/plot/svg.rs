//! What the text form of a drawing needs to know of texts and arcs.

use crate::gr::{Effects, Pt};
use vstd::prelude::*;

verus! {

/// The horizontal anchor of a text: `end`, `start` or `middle`.
pub fn anchor(effects: &Effects) -> (r: String)
    ensures
        r@ == effects.anchor_spec(),
{
    effects.anchor()
}

/// The vertical baseline of a text: `auto`, `hanging` or `middle`.
pub fn baseline(effects: &Effects) -> (r: String)
    ensures
        r@ == effects.baseline_spec(),
{
    effects.baseline()
}

/// Whether the way from `start` over `mid` to `end` turns to the side for
/// which an arc is drawn with the sweep flag 0.
pub open spec fn turns_back(start: Pt, mid: Pt, end: Pt) -> bool {
    (start.x - mid.x) * (end.y - mid.y) > (start.y - mid.y) * (end.x - mid.x)
}

/// calculate the svg sweep flac from star, middle and end points.
pub fn sweep_flag(start: &Pt, mid: &Pt, end: &Pt) -> (r: String)
    ensures
        r@ == (if turns_back(*start, *mid, *end) {
            "0"@
        } else {
            "1"@
        }),
{
    let a: i128 = ((start.x as i128) - (mid.x as i128));
    let b: i128 = ((end.y as i128) - (mid.y as i128));
    let c: i128 = ((start.y as i128) - (mid.y as i128));
    let d: i128 = ((end.x as i128) - (mid.x as i128));
    assert(-0x1_0000_0000 <= a <= 0x1_0000_0000 && -0x1_0000_0000 <= b <= 0x1_0000_0000);
    assert(-0x1_0000_0000 <= c <= 0x1_0000_0000 && -0x1_0000_0000 <= d <= 0x1_0000_0000);
    assert(-0x1_0000_0000_0000_0000 <= a * b <= 0x1_0000_0000_0000_0000
        && -0x1_0000_0000_0000_0000 <= c * d <= 0x1_0000_0000_0000_0000) by (nonlinear_arith)
        requires
            -0x1_0000_0000 <= a <= 0x1_0000_0000,
            -0x1_0000_0000 <= b <= 0x1_0000_0000,
            -0x1_0000_0000 <= c <= 0x1_0000_0000,
            -0x1_0000_0000 <= d <= 0x1_0000_0000,
    ;
    if a * b > c * d {
        "0".to_string()
    } else {
        "1".to_string()
    }
}

} // verus!
