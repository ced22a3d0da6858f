//! The sRGB inverse transfer curve in fixed-point arithmetic.
//!
//! A quantized channel value `v` in `0 ..= CHANNEL_MAX` is mapped to its
//! linear-light intensity at scale [`LINEAR_ONE`].  Below the threshold
//! 0.03928 the curve is the linear segment `relative / 12.92`; above it,
//! the power-law segment `((relative + 0.055) / 1.055) ^ 2.4`.  The
//! exponent is split as `2.4 == 2 + 2/5`, so the power-law segment needs
//! one integer fifth root, which [`fifth_root`] computes by binary search.

use vstd::arithmetic::div_mod::{
    lemma_div_pos_is_pos, lemma_multiply_divide_le,
};
use vstd::prelude::*;

verus! {

/// Scale of a linearized channel: `LINEAR_ONE` stands for intensity 1.0.
pub const LINEAR_ONE: u64 = 1_000_000;

/// Largest channel value at 8-bit depth.
pub const CHANNEL_MAX: u64 = 255;

/// The curve leaves its linear low segment where the relative channel
/// value `v / CHANNEL_MAX` reaches 0.03928 == `THRESHOLD_NUM / THRESHOLD_DEN`.
pub const THRESHOLD_NUM: u64 = 3_928;
/// Denominator of the segment threshold.
pub const THRESHOLD_DEN: u64 = 100_000;

/// Divisor of the low segment: 12.92 == `LOW_DIV_NUM / LOW_DIV_DEN`.
pub const LOW_DIV_NUM: u64 = 1_292;
/// Denominator of the low-segment divisor.
pub const LOW_DIV_DEN: u64 = 100;

/// Offset of the power-law base: 0.055 == `GAMMA_OFFSET / GAMMA_THOUSANDTHS`.
pub const GAMMA_OFFSET: u64 = 55;
/// Scale of the power-law base: 1.055 == `GAMMA_SCALE / GAMMA_THOUSANDTHS`.
pub const GAMMA_SCALE: u64 = 1_055;
/// Shared denominator of the two power-law constants.
pub const GAMMA_THOUSANDTHS: u64 = 1_000;

/// Fifth roots are taken at scale `ROOT_ONE`.
pub const ROOT_ONE: u64 = 10_000;
/// `ROOT_ONE_POW5 == pow5(ROOT_ONE)`, the largest argument [`fifth_root`] accepts.
pub const ROOT_ONE_POW5: u128 = 100_000_000_000_000_000_000;

/// The fifth power of `r`.
pub open spec fn pow5(r: int) -> int {
    r * r * r * r * r
}

/// `r` is the integer fifth root of `y`: the largest integer whose fifth
/// power does not exceed `y`.
pub open spec fn is_fifth_root(y: int, r: int) -> bool {
    &&& 0 <= r
    &&& pow5(r) <= y
    &&& y < pow5(r + 1)
}

/// The integer fifth root of a nonnegative integer.
pub open spec fn root5(y: int) -> int {
    choose|r: int| is_fifth_root(y, r)
}

/// Fifth powers of nonnegative integers grow strictly with their base.
pub proof fn lemma_pow5_increases(a: int, b: int)
    requires
        0 <= a < b,
    ensures
        pow5(a) < pow5(b),
{
    let a2 = a * a;
    let b2 = b * b;
    assert(0 <= a2 && a2 <= b2 && 1 <= b2) by (nonlinear_arith)
        requires
            0 <= a < b,
            a2 == a * a,
            b2 == b * b,
    ;
    let a4 = a2 * a2;
    let b4 = b2 * b2;
    assert(0 <= a4 && a4 <= b4 && 1 <= b4) by (nonlinear_arith)
        requires
            0 <= a2 <= b2,
            1 <= b2,
            a4 == a2 * a2,
            b4 == b2 * b2,
    ;
    assert(a4 * a < b4 * b) by (nonlinear_arith)
        requires
            0 <= a4 <= b4,
            1 <= b4,
            0 <= a < b,
    ;
    assert(a * a * a * a * a == a4 * a) by (nonlinear_arith)
        requires
            a2 == a * a,
            a4 == a2 * a2,
    ;
    assert(b * b * b * b * b == b4 * b) by (nonlinear_arith)
        requires
            b2 == b * b,
            b4 == b2 * b2,
    ;
}

/// Fifth powers of nonnegative integers never shrink as the base grows.
pub proof fn lemma_pow5_nondecreasing(a: int, b: int)
    requires
        0 <= a <= b,
    ensures
        pow5(a) <= pow5(b),
{
    if a < b {
        lemma_pow5_increases(a, b);
    }
}

/// Every nonnegative integer has an integer fifth root, and `root5` is it.
pub proof fn lemma_root5_exists(y: int)
    requires
        0 <= y,
    ensures
        is_fifth_root(y, root5(y)),
    decreases y,
{
    if y == 0 {
        assert(is_fifth_root(0, 0));
    } else {
        lemma_root5_exists(y - 1);
        let r = root5(y - 1);
        if y < pow5(r + 1) {
            assert(is_fifth_root(y, r));
        } else {
            lemma_pow5_increases(r + 1, r + 2);
            assert(is_fifth_root(y, r + 1));
        }
    }
    assert(exists|r: int| is_fifth_root(y, r));
}

/// The integer fifth root is unique.
pub proof fn lemma_fifth_root_unique(y: int, r: int)
    requires
        is_fifth_root(y, r),
    ensures
        root5(y) == r,
{
    assert(exists|s: int| is_fifth_root(y, s));
    let s = root5(y);
    assert(is_fifth_root(y, s));
    if s < r {
        lemma_pow5_nondecreasing(s + 1, r);
        assert(false);
    }
    if r < s {
        lemma_pow5_nondecreasing(r + 1, s);
        assert(false);
    }
}

/// Computes the integer fifth root of `y` by binary search.
pub fn fifth_root(y: u128) -> (r: u64)
    requires
        y <= ROOT_ONE_POW5,
    ensures
        r <= ROOT_ONE,
        is_fifth_root(y as int, r as int),
        r as int == root5(y as int),
{
    let mut lo: u64 = 0;
    let mut hi: u64 = ROOT_ONE + 1;
    proof {
        assert(pow5(0int) == 0);
        assert(pow5(10_001int) > 100_000_000_000_000_000_000);
    }
    while lo + 1 < hi
        invariant
            lo < hi <= ROOT_ONE + 1,
            y <= ROOT_ONE_POW5,
            pow5(lo as int) <= y as int,
            (y as int) < pow5(hi as int),
        decreases hi - lo,
    {
        let mid: u64 = lo + (hi - lo) / 2;
        let m: u128 = mid as u128;
        proof {
            assert(lo < mid < hi);
            assert(m * m <= 100_000_000) by (nonlinear_arith)
                requires
                    m <= 10_000,
            ;
        }
        let m2: u128 = m * m;
        proof {
            assert(m2 * m2 <= 10_000_000_000_000_000) by (nonlinear_arith)
                requires
                    m2 <= 100_000_000,
            ;
        }
        let m4: u128 = m2 * m2;
        proof {
            assert(m4 * m <= 100_000_000_000_000_000_000) by (nonlinear_arith)
                requires
                    m4 <= 10_000_000_000_000_000,
                    m <= 10_000,
            ;
        }
        let p: u128 = m4 * m;
        proof {
            let mi = mid as int;
            assert(p as int == mi * mi * mi * mi * mi) by (nonlinear_arith)
                requires
                    m2 as int == mi * mi,
                    m4 as int == (m2 as int) * (m2 as int),
                    p as int == (m4 as int) * mi,
            ;
            assert(p as int == pow5(mi));
        }
        if p <= y {
            lo = mid;
        } else {
            hi = mid;
        }
    }
    proof {
        assert(hi == lo + 1);
        assert(is_fifth_root(y as int, lo as int));
        lemma_fifth_root_unique(y as int, lo as int);
    }
    lo
}

/// `v / CHANNEL_MAX` lies below the segment threshold 0.03928.
pub open spec fn in_low_segment(v: int) -> bool {
    (THRESHOLD_DEN as int) * v < (THRESHOLD_NUM as int) * (CHANNEL_MAX as int)
}

/// The linear-light intensity of channel value `v`, at scale `LINEAR_ONE`.
///
/// Low segment: `relative / 12.92` with `relative == v / CHANNEL_MAX`,
/// that is `(LINEAR_ONE * LOW_DIV_DEN * v) / (LOW_DIV_NUM * CHANNEL_MAX)`
/// with the constant products multiplied out:
/// `100_000_000 == LINEAR_ONE * LOW_DIV_DEN` and
/// `329_460 == LOW_DIV_NUM * CHANNEL_MAX`.
///
/// Power-law segment: `((relative + 0.055) / 1.055) ^ 2.4`.  The base is
/// the fraction `num / 269_025`, with
/// `269_025 == GAMMA_SCALE * CHANNEL_MAX` and
/// `14_025 == GAMMA_OFFSET * CHANNEL_MAX`.  The exponent is split as
/// `2.4 == 2 + 2/5`: the base is squared, and the fifth root of the
/// square is taken at scale `ROOT_ONE`, so the result is
/// `(LINEAR_ONE * sq_num * t) / (sq_den * ROOT_ONE)` with
/// `sq_den == 269_025 * 269_025 == 72_374_450_625`,
/// `723_744_506_250_000 == sq_den * ROOT_ONE`, and
/// `100_000_000_000_000_000_000 == pow5(ROOT_ONE)`.
/// Every division rounds toward zero.
pub open spec fn linear_of(v: int) -> int
    recommends
        0 <= v <= CHANNEL_MAX,
{
    if in_low_segment(v) {
        (100_000_000 * v) / 329_460
    } else {
        let num = (GAMMA_THOUSANDTHS as int) * v + 14_025;
        let sq_num = num * num;
        let t = root5((100_000_000_000_000_000_000 * sq_num) / 72_374_450_625);
        (1_000_000 * sq_num * t) / 723_744_506_250_000
    }
}

/// A linearized channel lies between 0 and `LINEAR_ONE`.
pub proof fn lemma_linear_bounds(v: int)
    requires
        0 <= v <= CHANNEL_MAX,
    ensures
        0 <= linear_of(v) <= LINEAR_ONE,
{
    if in_low_segment(v) {
        lemma_div_pos_is_pos(100_000_000 * v, 329_460);
        lemma_multiply_divide_le(100_000_000 * v, 329_460, 1_000_000);
    } else {
        let num = (GAMMA_THOUSANDTHS as int) * v + 14_025;
        let sq_num = num * num;
        assert(0 <= sq_num && sq_num <= 72_374_450_625) by (nonlinear_arith)
            requires
                0 <= num <= 269_025,
                sq_num == num * num,
        ;
        lemma_div_pos_is_pos(100_000_000_000_000_000_000 * sq_num, 72_374_450_625);
        lemma_multiply_divide_le(
            100_000_000_000_000_000_000 * sq_num,
            72_374_450_625,
            100_000_000_000_000_000_000,
        );
        let y = (100_000_000_000_000_000_000 * sq_num) / 72_374_450_625;
        lemma_root5_exists(y);
        let t = root5(y);
        assert(pow5(10_000int) == 100_000_000_000_000_000_000);
        if t > 10_000 {
            lemma_pow5_increases(10_000, t);
            assert(false);
        }
        assert(0 <= 1_000_000 * sq_num * t
            && 1_000_000 * sq_num * t <= 723_744_506_250_000 * 1_000_000) by (nonlinear_arith)
            requires
                0 <= sq_num <= 72_374_450_625,
                0 <= t <= 10_000,
        ;
        lemma_div_pos_is_pos(1_000_000 * sq_num * t, 723_744_506_250_000);
        lemma_multiply_divide_le(1_000_000 * sq_num * t, 723_744_506_250_000, 1_000_000);
    }
}

/// The curve's two exact endpoints: 0 maps to 0 and `CHANNEL_MAX` to
/// `LINEAR_ONE`.
pub proof fn lemma_linear_extremes()
    ensures
        linear_of(0) == 0,
        linear_of(CHANNEL_MAX as int) == LINEAR_ONE,
{
    assert(pow5(10_000int) == 100_000_000_000_000_000_000);
    assert(pow5(10_001int) > 100_000_000_000_000_000_000);
    assert(is_fifth_root(100_000_000_000_000_000_000, 10_000));
    lemma_fifth_root_unique(100_000_000_000_000_000_000, 10_000);
    assert(linear_of(0) == 0);
    assert(269_025int * 269_025 == 72_374_450_625);
    assert(72_374_450_625_000_000int * 10_000 == 723_744_506_250_000_000_000);
    assert(linear_of(CHANNEL_MAX as int) == LINEAR_ONE);
}

/// Maps one 8-bit sRGB channel value to its linear-light intensity at
/// scale `LINEAR_ONE`.
pub fn linear_channel(v: u8) -> (r: u64)
    ensures
        r as int == linear_of(v as int),
        r <= LINEAR_ONE,
        v == 0 ==> r == 0,
        v as u64 == CHANNEL_MAX ==> r == LINEAR_ONE,
{
    proof {
        lemma_linear_bounds(v as int);
        lemma_linear_extremes();
    }
    if THRESHOLD_DEN * (v as u64) < THRESHOLD_NUM * CHANNEL_MAX {
        (100_000_000 * (v as u64)) / 329_460
    } else {
        let num: u64 = GAMMA_THOUSANDTHS * (v as u64) + 14_025;
        proof {
            assert(num * num <= 72_374_450_625) by (nonlinear_arith)
                requires
                    num <= 269_025,
            ;
        }
        let sq_num: u64 = num * num;
        let y: u128 = (100_000_000_000_000_000_000 * (sq_num as u128)) / 72_374_450_625;
        proof {
            lemma_div_pos_is_pos(100_000_000_000_000_000_000 * (sq_num as int), 72_374_450_625);
            lemma_multiply_divide_le(
                100_000_000_000_000_000_000 * (sq_num as int),
                72_374_450_625,
                100_000_000_000_000_000_000,
            );
        }
        let t: u64 = fifth_root(y);
        proof {
            assert(1_000_000 * (sq_num as int) * (t as int) <= 723_744_506_250_000_000_000)
                by (nonlinear_arith)
                requires
                    sq_num <= 72_374_450_625u64,
                    t <= 10_000u64,
            ;
        }
        let prod: u128 = 1_000_000 * (sq_num as u128) * (t as u128);
        let q: u128 = prod / 723_744_506_250_000;
        proof {
            assert(q as int == linear_of(v as int));
        }
        q as u64
    }
}

} // verus!
