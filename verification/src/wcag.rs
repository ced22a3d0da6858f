//! Relative luminance and the WCAG 2 contrast ratio, in fixed point.
//!
//! Luminance combines the three linearized channels with the BT.709
//! weights; its scale is [`LUMINANCE_ONE`].  The contrast ratio adds the
//! ambient-light offset 0.05 to both luminances and divides the larger
//! by the smaller; its scale is [`CONTRAST_ONE`], so results range from
//! `CONTRAST_ONE` (identical colors) to `21 * CONTRAST_ONE` (white
//! against black).

use crate::srgb::{
    lemma_linear_bounds, lemma_linear_extremes, linear_channel, linear_of, CHANNEL_MAX,
};
use vstd::arithmetic::div_mod::{
    lemma_div_is_ordered, lemma_div_is_ordered_by_denominator, lemma_div_multiples_vanish,
    lemma_multiply_divide_le,
};
use vstd::prelude::*;

verus! {

/// An sRGB color with three 8-bit channels.
#[derive(Clone, Copy, PartialEq, Eq, Structural, Debug)]
pub struct Color {
    /// The red channel.
    pub r: u8,
    /// The green channel.
    pub g: u8,
    /// The blue channel.
    pub b: u8,
}

/// BT.709 weight of the red channel, in ten-thousandths.
pub const WEIGHT_R: u64 = 2_126;
/// BT.709 weight of the green channel, in ten-thousandths.
pub const WEIGHT_G: u64 = 7_152;
/// BT.709 weight of the blue channel, in ten-thousandths.
pub const WEIGHT_B: u64 = 722;

/// Scale of a luminance value: `LUMINANCE_ONE` stands for 1.0.
/// It equals `(WEIGHT_R + WEIGHT_G + WEIGHT_B) * LINEAR_ONE`, so white
/// comes out exactly at 1.0.
pub const LUMINANCE_ONE: u64 = 10_000_000_000;

/// The WCAG ambient-light offset 0.05, at scale `LUMINANCE_ONE`.
pub const AMBIENT: u64 = 500_000_000;

/// Scale of a contrast ratio: `CONTRAST_ONE` stands for 1.0.
pub const CONTRAST_ONE: u64 = 1_000_000;

/// Relative luminance of `c` at scale `LUMINANCE_ONE`:
/// `0.2126 * linear(r) + 0.7152 * linear(g) + 0.0722 * linear(b)`.
/// The literal coefficients are `WEIGHT_R`, `WEIGHT_G` and `WEIGHT_B`.
pub open spec fn luminance_of(c: Color) -> int {
    2_126 * linear_of(c.r as int) + 7_152 * linear_of(c.g as int) + 722 * linear_of(c.b as int)
}

/// WCAG 2 contrast ratio between `a` and `b` at scale `CONTRAST_ONE`:
/// the larger ambient-adjusted luminance over the smaller, rounded
/// toward zero.  The literal coefficient `1_000_000` is `CONTRAST_ONE`.
pub open spec fn contrast_of(a: Color, b: Color) -> int {
    let la = luminance_of(a) + (AMBIENT as int);
    let lb = luminance_of(b) + (AMBIENT as int);
    if la >= lb {
        (1_000_000 * la) / lb
    } else {
        (1_000_000 * lb) / la
    }
}

/// Every color's relative luminance lies between 0.0 and 1.0: at the
/// fixed-point scale, between 0 and `LUMINANCE_ONE`.
pub proof fn lemma_luminance_bounds(c: Color)
    ensures
        0 <= luminance_of(c) <= LUMINANCE_ONE,
{
    lemma_linear_bounds(c.r as int);
    lemma_linear_bounds(c.g as int);
    lemma_linear_bounds(c.b as int);
}

/// The contrast ratio of a larger over a smaller ambient-adjusted
/// luminance lies between 1.0 and 21.0.
proof fn lemma_ratio_range(hi: int, lo: int)
    requires
        (AMBIENT as int) <= lo <= hi <= (LUMINANCE_ONE + AMBIENT) as int,
    ensures
        (CONTRAST_ONE as int) <= (1_000_000 * hi) / lo,
        (1_000_000 * hi) / lo <= 21 * (CONTRAST_ONE as int),
{
    lemma_div_multiples_vanish(1_000_000, lo);
    lemma_div_is_ordered(1_000_000 * lo, 1_000_000 * hi, lo);
    lemma_multiply_divide_le(1_000_000 * hi, lo, 21_000_000);
}

/// The contrast ratio of any two colors lies between 1.0 and 21.0: at
/// the fixed-point scale, between `CONTRAST_ONE` and `21 * CONTRAST_ONE`.
pub proof fn lemma_contrast_in_range(a: Color, b: Color)
    ensures
        (CONTRAST_ONE as int) <= contrast_of(a, b) <= 21 * (CONTRAST_ONE as int),
{
    lemma_luminance_bounds(a);
    lemma_luminance_bounds(b);
    let la = luminance_of(a) + (AMBIENT as int);
    let lb = luminance_of(b) + (AMBIENT as int);
    if la >= lb {
        lemma_ratio_range(la, lb);
    } else {
        lemma_ratio_range(lb, la);
    }
}

/// Contrast is symmetric: swapping the two colors leaves the ratio
/// unchanged, because the larger adjusted luminance is always the
/// numerator.
pub proof fn lemma_contrast_symmetric(a: Color, b: Color)
    ensures
        contrast_of(a, b) == contrast_of(b, a),
{
}

/// A color has contrast exactly 1.0 against itself.
pub proof fn lemma_contrast_self(c: Color)
    ensures
        contrast_of(c, c) == CONTRAST_ONE,
{
    lemma_luminance_bounds(c);
    let l = luminance_of(c) + (AMBIENT as int);
    lemma_div_multiples_vanish(1_000_000, l);
}

/// Contrast grows with the luminance gap: among three colors of
/// strictly increasing luminance, the outer pair has at least the
/// contrast of either inner pair.
pub proof fn lemma_contrast_monotone(a: Color, b: Color, c: Color)
    requires
        luminance_of(a) < luminance_of(b),
        luminance_of(b) < luminance_of(c),
    ensures
        contrast_of(a, c) >= contrast_of(a, b),
        contrast_of(a, c) >= contrast_of(b, c),
{
    lemma_luminance_bounds(a);
    lemma_luminance_bounds(b);
    lemma_luminance_bounds(c);
    let la = luminance_of(a) + (AMBIENT as int);
    let lb = luminance_of(b) + (AMBIENT as int);
    let lc = luminance_of(c) + (AMBIENT as int);
    lemma_div_is_ordered(1_000_000 * lb, 1_000_000 * lc, la);
    lemma_div_is_ordered_by_denominator(1_000_000 * lc, la, lb);
}

/// Relative luminance of an sRGB color, at scale `LUMINANCE_ONE`.
/// Black comes out exactly 0 and white exactly `LUMINANCE_ONE`.
pub fn luminance(c: Color) -> (r: u64)
    ensures
        r as int == luminance_of(c),
        r <= LUMINANCE_ONE,
        c.r == 0 && c.g == 0 && c.b == 0 ==> r == 0,
        c.r as u64 == CHANNEL_MAX && c.g as u64 == CHANNEL_MAX && c.b as u64 == CHANNEL_MAX
            ==> r == LUMINANCE_ONE,
{
    proof {
        lemma_linear_extremes();
    }
    let lr: u64 = linear_channel(c.r);
    let lg: u64 = linear_channel(c.g);
    let lb: u64 = linear_channel(c.b);
    WEIGHT_R * lr + WEIGHT_G * lg + WEIGHT_B * lb
}

/// WCAG 2 contrast ratio between two sRGB colors, at scale
/// `CONTRAST_ONE`.  The result always lies between `CONTRAST_ONE`
/// (ratio 1.0) and `21 * CONTRAST_ONE` (ratio 21.0).
pub fn contrast(a: Color, b: Color) -> (r: u64)
    ensures
        r as int == contrast_of(a, b),
        CONTRAST_ONE <= r <= 21 * CONTRAST_ONE,
{
    proof {
        lemma_contrast_in_range(a, b);
    }
    let la: u64 = luminance(a) + AMBIENT;
    let lb: u64 = luminance(b) + AMBIENT;
    if la >= lb {
        (CONTRAST_ONE * la) / lb
    } else {
        (CONTRAST_ONE * lb) / la
    }
}

} // verus!
