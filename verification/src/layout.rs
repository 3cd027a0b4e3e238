//! The layout orchestrator: classifies the items, selects a strategy and
//! runs it against the normalized 480-unit target width.

use vstd::prelude::*;

use crate::classify::{
    average_ratio, force_fallback, signature, spec_average_ratio, spec_force_fallback,
    spec_signature,
};
use crate::config::{MAX_ITEM_COUNT, TARGET_WIDTH};
use crate::fallback::{layout_fallback, spec_layout_fallback};
use crate::item::{views_of, ItemModel, LayoutItem};
use crate::specialized::{
    layout_four_children, layout_three_children, layout_two_children, spec_layout_four,
    spec_layout_three, spec_layout_two,
};

verus! {

/// The strategy the orchestrator picks for a collection.
#[derive(Clone, Copy, Debug, PartialEq, Eq, Structural)]
pub enum Strategy {
    Two,
    Three,
    Four,
    Fallback,
}

/// Which strategy a collection of `count` items gets: the fixed template
/// of its size when there are two, three or four items and no extreme
/// ratio, the fallback search otherwise.
pub open spec fn spec_strategy(count: int, force_calc: bool) -> Strategy {
    if force_calc {
        Strategy::Fallback
    } else if count == 2 {
        Strategy::Two
    } else if count == 3 {
        Strategy::Three
    } else if count == 4 {
        Strategy::Four
    } else {
        Strategy::Fallback
    }
}

/// Inputs the orchestrator accepts: at least two items (the host handles
/// zero and one itself), no more than the machine bound, every ratio a
/// positive thousandth within magnitude.
pub open spec fn layout_inputs(rs: Seq<i64>) -> bool {
    &&& 2 <= rs.len() <= MAX_ITEM_COUNT
    &&& crate::fallback::fallback_ratios(rs)
}

/// The full layout: one frame and flag set per item, in input order, at
/// the normalized target width.
pub open spec fn spec_layout(rs: Seq<i64>) -> Seq<ItemModel> {
    let w = TARGET_WIDTH as int;
    match spec_strategy(rs.len() as int, spec_force_fallback(rs)) {
        Strategy::Two => spec_layout_two(rs, w),
        Strategy::Three => spec_layout_three(rs, w),
        Strategy::Four => spec_layout_four(rs, w),
        Strategy::Fallback => spec_layout_fallback(rs, w),
    }
}

/// Picks the strategy for a collection. See [`spec_strategy`].
pub fn select_strategy(count: usize, force_calc: bool) -> (r: Strategy)
    ensures
        r == spec_strategy(count as int, force_calc),
{
    if force_calc {
        Strategy::Fallback
    } else if count == 2 {
        Strategy::Two
    } else if count == 3 {
        Strategy::Three
    } else if count == 4 {
        Strategy::Four
    } else {
        Strategy::Fallback
    }
}

/// Computes the media-grid layout of the collection: classifies every
/// aspect ratio, averages them, picks a strategy, and returns the ordered
/// items with their frames and edge flags filled in. Total: every
/// accepted input yields exactly one item per ratio, in input order.
pub fn layout(ratios: &Vec<i64>) -> (r: Vec<LayoutItem>)
    requires
        layout_inputs(ratios@),
    ensures
        views_of(r@) == spec_layout(ratios@),
        r@.len() == ratios@.len(),
        forall|i: int| 0 <= i < r@.len() ==> #[trigger] r@[i].aspect_ratio == ratios@[i],
{
    let proportions = signature(ratios);
    let average_aspect_ratio = average_ratio(ratios);
    let force_calc = force_fallback(ratios);
    let strategy = select_strategy(ratios.len(), force_calc);
    proof {
        if !force_calc {
            assert(forall|i: int|
                0 <= i < ratios@.len() ==> 1 <= #[trigger] ratios@[i]
                    <= crate::config::FORCE_FALLBACK_RATIO_THRESHOLD);
        }
        assert(ratios@.len() * 1000 <= 400_000);
    }
    let out = match strategy {
        Strategy::Two => layout_two_children(
            ratios,
            &proportions,
            average_aspect_ratio,
            TARGET_WIDTH,
        ),
        Strategy::Three => layout_three_children(
            ratios,
            &proportions,
            average_aspect_ratio,
            TARGET_WIDTH,
        ),
        Strategy::Four => layout_four_children(
            ratios,
            &proportions,
            average_aspect_ratio,
            TARGET_WIDTH,
        ),
        Strategy::Fallback => layout_fallback(
            ratios,
            &proportions,
            average_aspect_ratio,
            TARGET_WIDTH,
        ),
    };
    proof {
        crate::guarantees::lemma_layout_length_and_order(ratios@);
        assert forall|i: int| 0 <= i < out@.len() implies #[trigger] out@[i].aspect_ratio
            == ratios@[i] by {
            assert(views_of(out@)[i] == out@[i]@);
        }
    }
    out
}

} // verus!
