//! Fixed-point arithmetic on lengths and angles.
//!
//! A value `v` stands for `v / 10000` millimetres (or degrees). Two points
//! are the same connectivity node when their coordinates agree after
//! rounding to hundredths, which is what [`quantize`] computes.

use vstd::prelude::*;

verus! {

/// Base units in one whole millimetre or degree.
pub const UNIT: i32 = 10000;

/// Base units in one quantization step (a hundredth).
pub const STEP: i32 = 100;

/// The hundredth nearest to `v`, halves rounded away from zero.
pub open spec fn quantize_spec(v: int) -> int {
    if v >= 0 {
        (v + 50) / 100
    } else {
        -((50 - v) / 100)
    }
}

/// Rounds a fixed-point value to hundredths.
pub fn quantize(v: i32) -> (q: i32)
    ensures
        q == quantize_spec(v as int),
{
    let w: i64 = v as i64;
    if w >= 0 {
        ((w + 50) / 100) as i32
    } else {
        (-((50 - w) / 100)) as i32
    }
}

/// Half of `v`, rounded toward zero.
pub open spec fn half_spec(v: int) -> int {
    if v >= 0 {
        v / 2
    } else {
        -((-v) / 2)
    }
}

/// Halves a fixed-point value, rounding toward zero.
pub fn half(v: i32) -> (h: i32)
    ensures
        h == half_spec(v as int),
{
    let w: i64 = v as i64;
    if w >= 0 {
        (w / 2) as i32
    } else {
        (-((-w) / 2)) as i32
    }
}

/// A value on the hundredths grid is its own nearest hundredth, and so is
/// every value less than half a step away from it.
pub proof fn lemma_quantize_near_grid(a: int, b: int)
    requires
        b % 100 == 0,
        -50 < a - b < 50,
    ensures
        quantize_spec(a) == quantize_spec(b),
        quantize_spec(b) * 100 == b,
{
}

/// Values with the same nearest hundredth are less than one step apart.
pub proof fn lemma_quantize_same_close(a: int, b: int)
    requires
        quantize_spec(a) == quantize_spec(b),
    ensures
        -100 < a - b < 100,
{
}

/// The nearest hundredth of a 32-bit value fits in 32 bits.
pub proof fn lemma_quantize_range(v: int)
    requires
        i32::MIN <= v <= i32::MAX,
    ensures
        i32::MIN <= quantize_spec(v) <= i32::MAX,
{
}

} // verus!
