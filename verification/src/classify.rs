//! Classification of aspect ratios into proportion classes, and the derived
//! per-collection measures: the proportion signature, the average aspect
//! ratio, and the extreme-ratio test that forces the fallback layout.

use vstd::prelude::*;

use crate::config::{FORCE_FALLBACK_RATIO_THRESHOLD, NARROW_THRESHOLD, WIDE_THRESHOLD};
use crate::math::sum_of;

verus! {

/// The proportion class of one aspect ratio: wide above 1.2, narrow below
/// 0.8, square otherwise.
#[derive(Clone, Copy, Debug, PartialEq, Eq, Structural)]
pub enum ProportionClass {
    Wide,
    Narrow,
    Square,
}

/// The class a given aspect ratio (in thousandths) falls into.
pub open spec fn spec_classify(ratio: i64) -> ProportionClass {
    if ratio > WIDE_THRESHOLD {
        ProportionClass::Wide
    } else if ratio < NARROW_THRESHOLD {
        ProportionClass::Narrow
    } else {
        ProportionClass::Square
    }
}

/// The proportion signature: one class per item, in input order.
pub open spec fn spec_signature(ratios: Seq<i64>) -> Seq<ProportionClass> {
    ratios.map_values(|r: i64| spec_classify(r))
}

/// Mean aspect ratio of the collection, in thousandths (floored).
pub open spec fn spec_average_ratio(ratios: Seq<i64>) -> int {
    sum_of(ratios) / ratios.len() as int
}

/// Whether any ratio is extreme enough to force the fallback layout.
pub open spec fn spec_force_fallback(ratios: Seq<i64>) -> bool {
    exists|i: int| 0 <= i < ratios.len() && ratios[i] > FORCE_FALLBACK_RATIO_THRESHOLD
}

/// Classifies one aspect ratio. Pure and total.
pub fn classify(ratio: i64) -> (r: ProportionClass)
    ensures
        r == spec_classify(ratio),
{
    if ratio > WIDE_THRESHOLD {
        ProportionClass::Wide
    } else if ratio < NARROW_THRESHOLD {
        ProportionClass::Narrow
    } else {
        ProportionClass::Square
    }
}

/// The proportion signature of the collection, one class per item.
pub fn signature(ratios: &Vec<i64>) -> (r: Vec<ProportionClass>)
    ensures
        r@ == spec_signature(ratios@),
{
    let mut out: Vec<ProportionClass> = Vec::new();
    let mut i: usize = 0;
    while i < ratios.len()
        invariant
            i <= ratios.len(),
            out@ == spec_signature(ratios@).take(i as int),
        decreases ratios.len() - i,
    {
        out.push(classify(ratios[i]));
        assert(out@ =~= spec_signature(ratios@).take(i + 1));
        i = i + 1;
    }
    assert(out@ =~= spec_signature(ratios@));
    out
}

/// Mean aspect ratio in thousandths, floored.
pub fn average_ratio(ratios: &Vec<i64>) -> (r: i64)
    requires
        1 <= ratios@.len() <= 0x10000,
        forall|i: int| 0 <= i < ratios@.len() ==> 0 <= #[trigger] ratios@[i] <= 0x100_0000,
    ensures
        r == spec_average_ratio(ratios@),
        0 <= r <= 0x100_0000,
{
    let mut sum: i64 = 0;
    let mut i: usize = 0;
    while i < ratios.len()
        invariant
            i <= ratios.len(),
            ratios@.len() <= 0x10000,
            forall|j: int| 0 <= j < ratios@.len() ==> 0 <= #[trigger] ratios@[j] <= 0x100_0000,
            sum == crate::math::sum_to(ratios@, i as int),
            0 <= sum <= i * 0x100_0000,
        decreases ratios.len() - i,
    {
        proof {
            crate::math::lemma_sum_to_bounds(ratios@, i as int, 0, 0x100_0000);
            assert((i + 1) * 0x100_0000 == i * 0x100_0000 + 0x100_0000) by (nonlinear_arith);
        }
        sum = sum + ratios[i];
        i = i + 1;
    }
    proof {
        crate::math::lemma_sum_to_bounds(ratios@, ratios@.len() as int, 0, 0x100_0000);
        vstd::arithmetic::div_mod::lemma_div_pos_is_pos(sum as int, ratios@.len() as int);
        assert(sum as int / ratios@.len() as int <= 0x100_0000) by (nonlinear_arith)
            requires
                0 <= sum as int <= ratios@.len() as int * 0x100_0000,
                1 <= ratios@.len() as int,
        ;
    }
    sum / (ratios.len() as i64)
}

/// Whether any ratio exceeds the threshold that forces the fallback layout.
pub fn force_fallback(ratios: &Vec<i64>) -> (r: bool)
    ensures
        r == spec_force_fallback(ratios@),
{
    let mut i: usize = 0;
    while i < ratios.len()
        invariant
            i <= ratios.len(),
            forall|j: int| 0 <= j < i ==> #[trigger] ratios@[j] <= FORCE_FALLBACK_RATIO_THRESHOLD,
        decreases ratios.len() - i,
    {
        if ratios[i] > FORCE_FALLBACK_RATIO_THRESHOLD {
            return true;
        }
        i = i + 1;
    }
    false
}

} // verus!
