//! Small arithmetic helpers shared by the layout computations.
//!
//! The normalized geometry is integer arithmetic on milli-units: flooring
//! division (the plain `/`), rounding to the nearest whole logical unit,
//! and summation of ratio sequences.

use vstd::prelude::*;

verus! {

/// Sum of the first `k` entries of `s`, as a mathematical integer.
pub open spec fn sum_to(s: Seq<i64>, k: int) -> int
    decreases k,
{
    if k <= 0 {
        0
    } else {
        sum_to(s, k - 1) + s[k - 1]
    }
}

/// Sum of all entries of `s`.
pub open spec fn sum_of(s: Seq<i64>) -> int {
    sum_to(s, s.len() as int)
}

/// A sum over entries drawn from `[lo, hi]` is itself bounded.
pub proof fn lemma_sum_to_bounds(s: Seq<i64>, k: int, lo: int, hi: int)
    requires
        0 <= k <= s.len(),
        forall|i: int| 0 <= i < s.len() ==> lo <= #[trigger] s[i] <= hi,
        0 <= lo,
    ensures
        k * lo <= sum_to(s, k) <= k * hi,
    decreases k,
{
    if k <= 0 {
        assert(k * lo == 0) by (nonlinear_arith)
            requires
                k == 0,
        ;
        assert(k * hi == 0) by (nonlinear_arith)
            requires
                k == 0,
        ;
    } else {
        lemma_sum_to_bounds(s, k - 1, lo, hi);
        assert(lo <= s[k - 1] <= hi);
        assert((k - 1) * lo + lo == k * lo) by (nonlinear_arith);
        assert((k - 1) * hi + hi == k * hi) by (nonlinear_arith);
    }
}

/// A product of two values bounded in magnitude is bounded by the product
/// of the bounds.
pub proof fn lemma_mul_bounds_abs(v: int, m: int, cap_v: int, cap_m: int)
    by (nonlinear_arith)
    requires
        -cap_v <= v <= cap_v,
        0 <= m <= cap_m,
        0 <= cap_v,
    ensures
        -cap_v * cap_m <= v * m <= cap_v * cap_m,
{
}

/// Rounds a nonnegative milli-unit value to the nearest whole unit,
/// halves away from zero, staying in milli-units.
pub open spec fn round_to_unit(v: int) -> int {
    ((v + 500) / 1000) * 1000
}

/// Floors a nonnegative milli-unit value to a whole unit, staying in
/// milli-units.
pub open spec fn floor_to_unit(v: int) -> int {
    (v / 1000) * 1000
}

/// Rounds a milli-value to whole units, dropping the milli scale: the pixel
/// seen by the host for a scaled coordinate. Halves round away from zero.
pub open spec fn round_to_whole(v: int) -> int {
    if v >= 0 {
        (v + 500) / 1000
    } else {
        -((-v + 500) / 1000)
    }
}

/// Scales a milli-unit value by `actual_width / 480`, the ratio between the
/// concrete composition width and the normalized one, flooring the magnitude.
pub open spec fn scale_to_width(v: int, actual_width: int) -> int {
    if v >= 0 {
        v * actual_width / 480
    } else {
        -((-v) * actual_width / 480)
    }
}

/// Executable form of [`scale_to_width`].
pub fn scale_width(v: i64, actual_width: i64) -> (r: i64)
    requires
        -0x2_0000_0000 <= v <= 0x2_0000_0000,
        0 <= actual_width <= 0x10_0000,
    ensures
        r == scale_to_width(v as int, actual_width as int),
        -0x1_0000_0000_0000 <= r <= 0x1_0000_0000_0000,
{
    if v >= 0 {
        proof {
            lemma_mul_bounds_abs(v as int, actual_width as int, 0x2_0000_0000, 0x10_0000);
            vstd::arithmetic::div_mod::lemma_div_pos_is_pos(v as int * actual_width as int, 480);
            vstd::arithmetic::div_mod::lemma_div_is_ordered(
                v as int * actual_width as int,
                0x2_0000_0000int * 0x10_0000,
                480,
            );
        }
        v * actual_width / 480
    } else {
        proof {
            lemma_mul_bounds_abs(-(v as int), actual_width as int, 0x2_0000_0000, 0x10_0000);
            vstd::arithmetic::div_mod::lemma_div_pos_is_pos(
                -(v as int) * actual_width as int,
                480,
            );
            vstd::arithmetic::div_mod::lemma_div_is_ordered(
                -(v as int) * actual_width as int,
                0x2_0000_0000int * 0x10_0000,
                480,
            );
        }
        -((-v) * actual_width / 480)
    }
}

/// Executable form of [`round_to_unit`].
pub fn round_unit(v: i64) -> (r: i64)
    requires
        0 <= v < 0x4000_0000_0000_0000,
    ensures
        r == round_to_unit(v as int),
        0 <= r <= v + 500,
{
    ((v + 500) / 1000) * 1000
}

/// Executable form of [`floor_to_unit`].
pub fn floor_unit(v: i64) -> (r: i64)
    requires
        0 <= v,
    ensures
        r == floor_to_unit(v as int),
        0 <= r <= v,
{
    (v / 1000) * 1000
}

/// Executable form of [`round_to_whole`].
pub fn round_whole(v: i64) -> (r: i64)
    requires
        -0x4000_0000_0000_0000 < v < 0x4000_0000_0000_0000,
    ensures
        r == round_to_whole(v as int),
{
    if v >= 0 {
        (v + 500) / 1000
    } else {
        -((-v + 500) / 1000)
    }
}

/// The smaller of two machine integers.
pub fn min64(a: i64, b: i64) -> (r: i64)
    ensures
        r == vstd::math::min(a as int, b as int),
{
    if a < b {
        a
    } else {
        b
    }
}

/// The larger of two machine integers.
pub fn max64(a: i64, b: i64) -> (r: i64)
    ensures
        r == vstd::math::max(a as int, b as int),
{
    if a > b {
        a
    } else {
        b
    }
}

} // verus!
