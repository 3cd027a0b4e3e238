//! Fixed geometric templates for exactly two, three or four items.
//!
//! Each template is a total function of the aspect ratios and the target
//! width; the proportion signature and the average aspect ratio only select
//! a branch. The templates are used by the orchestrator when no ratio is
//! extreme; otherwise the general fallback search runs instead.

use vstd::prelude::*;

use crate::classify::{spec_average_ratio, spec_classify, spec_signature, ProportionClass};
use crate::config::{FORCE_FALLBACK_RATIO_THRESHOLD, MIN_ASPECT_RATIO, MIN_ROW_WIDTH};
use crate::item::{Frame, FrameModel, ItemModel, LayoutItem};
use crate::math::{max64, min64, round_to_unit, round_unit};
use crate::position_flags::PositionFlags;
use vstd::math::{max, min};

verus! {

/// Every ratio is a positive thousandth no larger than the fallback-forcing
/// threshold: the orchestrator only runs a template under this bound.
pub open spec fn template_ratios(rs: Seq<i64>) -> bool {
    forall|i: int|
        0 <= i < rs.len() ==> MIN_ASPECT_RATIO <= #[trigger] rs[i]
            <= FORCE_FALLBACK_RATIO_THRESHOLD
}

/// Accepted target widths, in milli-units: wide enough for the 70-unit
/// minimum column to fit twice, small enough for exact machine arithmetic.
pub open spec fn template_width(width: int) -> bool {
    140_000 <= width <= 1_000_000
}

/// The two-item template.
///
/// Both wide, similar and on average clearly wide: stack the two full-width
/// frames vertically at the height the narrower of them implies. Both wide
/// or both square otherwise: split the width in half. Any other mix: split
/// the width so that the two implied heights coincide, at `width * a0 /
/// (a0 + a1)`.
pub open spec fn spec_layout_two(rs: Seq<i64>, width: int) -> Seq<ItemModel> {
    let a0 = rs[0] as int;
    let a1 = rs[1] as int;
    let both_wide = spec_classify(rs[0]) == ProportionClass::Wide && spec_classify(rs[1])
        == ProportionClass::Wide;
    let both_square = spec_classify(rs[0]) == ProportionClass::Square && spec_classify(rs[1])
        == ProportionClass::Square;
    if both_wide && spec_average_ratio(rs) > 1400 && -200 < a0 - a1 < 200 {
        let height = min(width * 1000 / a0, width * 1000 / a1);
        seq![
            ItemModel {
                aspect_ratio: a0,
                frame: FrameModel { x: 0, y: 0, width, height },
                flags: PositionFlags::spec_edges(true, true, true, false),
            },
            ItemModel {
                aspect_ratio: a1,
                frame: FrameModel { x: 0, y: height, width, height },
                flags: PositionFlags::spec_edges(false, true, true, true),
            },
        ]
    } else if both_wide || both_square {
        let half = width / 2;
        let height = min(half * 1000 / a0, half * 1000 / a1);
        seq![
            ItemModel {
                aspect_ratio: a0,
                frame: FrameModel { x: 0, y: 0, width: half, height },
                flags: PositionFlags::spec_edges(true, true, false, true),
            },
            ItemModel {
                aspect_ratio: a1,
                frame: FrameModel { x: half, y: 0, width: half, height },
                flags: PositionFlags::spec_edges(true, false, true, true),
            },
        ]
    } else {
        let first_width = width * a0 / (a0 + a1);
        let second_width = width - first_width;
        let height = min(first_width * 1000 / a0, second_width * 1000 / a1);
        seq![
            ItemModel {
                aspect_ratio: a0,
                frame: FrameModel { x: 0, y: 0, width: first_width, height },
                flags: PositionFlags::spec_edges(true, true, false, true),
            },
            ItemModel {
                aspect_ratio: a1,
                frame: FrameModel { x: first_width, y: 0, width: second_width, height },
                flags: PositionFlags::spec_edges(true, false, true, true),
            },
        ]
    }
}

/// Lays out exactly two items. See [`spec_layout_two`].
pub fn layout_two_children(
    ratios: &Vec<i64>,
    proportions: &Vec<ProportionClass>,
    average_aspect_ratio: i64,
    width: i64,
) -> (r: Vec<LayoutItem>)
    requires
        ratios@.len() == 2,
        template_ratios(ratios@),
        template_width(width as int),
        proportions@ == spec_signature(ratios@),
        average_aspect_ratio as int == spec_average_ratio(ratios@),
    ensures
        crate::item::views_of(r@) == spec_layout_two(ratios@, width as int),
        r@.len() == 2,
{
    let a0 = ratios[0];
    let a1 = ratios[1];
    assert(proportions@[0] == spec_classify(ratios@[0]));
    assert(proportions@[1] == spec_classify(ratios@[1]));
    let both_wide = proportions[0] == ProportionClass::Wide && proportions[1]
        == ProportionClass::Wide;
    let both_square = proportions[0] == ProportionClass::Square && proportions[1]
        == ProportionClass::Square;

    let mut out: Vec<LayoutItem> = Vec::new();
    if both_wide && average_aspect_ratio > 1400 && -200 < a0 - a1 && a0 - a1 < 200 {
        let height = min64(width * 1000 / a0, width * 1000 / a1);
        out.push(
            LayoutItem {
                aspect_ratio: a0,
                frame: Frame { x: 0, y: 0, width, height },
                flags: PositionFlags::from_edges(true, true, true, false),
            },
        );
        out.push(
            LayoutItem {
                aspect_ratio: a1,
                frame: Frame { x: 0, y: height, width, height },
                flags: PositionFlags::from_edges(false, true, true, true),
            },
        );
    } else if both_wide || both_square {
        let half = width / 2;
        let height = min64(half * 1000 / a0, half * 1000 / a1);
        out.push(
            LayoutItem {
                aspect_ratio: a0,
                frame: Frame { x: 0, y: 0, width: half, height },
                flags: PositionFlags::from_edges(true, true, false, true),
            },
        );
        out.push(
            LayoutItem {
                aspect_ratio: a1,
                frame: Frame { x: half, y: 0, width: half, height },
                flags: PositionFlags::from_edges(true, false, true, true),
            },
        );
    } else {
        proof {
            crate::math::lemma_mul_bounds_abs(
                width as int,
                a0 as int,
                0x10_0000,
                FORCE_FALLBACK_RATIO_THRESHOLD as int,
            );
        }
        let first_width = width * a0 / (a0 + a1);
        proof {
            vstd::arithmetic::div_mod::lemma_div_pos_is_pos(width as int * a0 as int, a0 + a1);
            assert(width as int * a0 as int <= (a0 + a1) * width as int) by (nonlinear_arith)
                requires
                    0 <= width as int && 0 <= a0 as int && 0 <= a1 as int,
            ;
            vstd::arithmetic::div_mod::lemma_div_is_ordered(
                width as int * a0 as int,
                (a0 + a1) * width as int,
                a0 + a1,
            );
            vstd::arithmetic::div_mod::lemma_div_multiples_vanish(width as int, a0 + a1);
        }
        let second_width = width - first_width;
        let height = min64(first_width * 1000 / a0, second_width * 1000 / a1);
        out.push(
            LayoutItem {
                aspect_ratio: a0,
                frame: Frame { x: 0, y: 0, width: first_width, height },
                flags: PositionFlags::from_edges(true, true, false, true),
            },
        );
        out.push(
            LayoutItem {
                aspect_ratio: a1,
                frame: Frame { x: first_width, y: 0, width: second_width, height },
                flags: PositionFlags::from_edges(true, false, true, true),
            },
        );
    }
    assert(crate::item::views_of(out@) =~= spec_layout_two(ratios@, width as int));
    out
}

/// The three-item template. `height = width / average ratio` is the column
/// height the collection implies.
///
/// A narrow first item becomes a tall left column beside two stacked right
/// cells whose heights split `height`; otherwise the first item becomes a
/// full-width top strip over two equal bottom halves. Rounding is to whole
/// logical units; the right column is clamped to the 70-unit minimum.
pub open spec fn spec_layout_three(rs: Seq<i64>, width: int) -> Seq<ItemModel> {
    let a0 = rs[0] as int;
    let a1 = rs[1] as int;
    let a2 = rs[2] as int;
    let height = width * 1000 / spec_average_ratio(rs);
    if spec_classify(rs[0]) == ProportionClass::Narrow {
        let third_height = min(height / 2, round_to_unit(a1 * width / (a2 + a0)));
        let second_height = height - third_height;
        let right_width = max(
            min(width / 2, round_to_unit(min(third_height * a2 / 1000, second_height * a1 / 1000))),
            MIN_ROW_WIDTH as int,
        );
        let left_width = round_to_unit(min(height * a0 / 1000, width - right_width));
        seq![
            ItemModel {
                aspect_ratio: a0,
                frame: FrameModel { x: 0, y: 0, width: left_width, height },
                flags: PositionFlags::spec_edges(true, true, false, true),
            },
            ItemModel {
                aspect_ratio: a1,
                frame: FrameModel { x: left_width, y: 0, width: right_width, height: second_height },
                flags: PositionFlags::spec_edges(true, false, true, false),
            },
            ItemModel {
                aspect_ratio: a2,
                frame: FrameModel {
                    x: left_width,
                    y: second_height,
                    width: right_width,
                    height: third_height,
                },
                flags: PositionFlags::spec_edges(false, false, true, true),
            },
        ]
    } else {
        let first_height = crate::math::floor_to_unit(min(width * 1000 / a0, height * 66 / 100));
        let half = width / 2;
        let second_height = min(
            height - first_height,
            round_to_unit(min(half * 1000 / a1, half * 1000 / a2)),
        );
        seq![
            ItemModel {
                aspect_ratio: a0,
                frame: FrameModel { x: 0, y: 0, width, height: first_height },
                flags: PositionFlags::spec_edges(true, true, true, false),
            },
            ItemModel {
                aspect_ratio: a1,
                frame: FrameModel { x: 0, y: first_height, width: half, height: second_height },
                flags: PositionFlags::spec_edges(false, true, false, true),
            },
            ItemModel {
                aspect_ratio: a2,
                frame: FrameModel { x: half, y: first_height, width: half, height: second_height },
                flags: PositionFlags::spec_edges(false, false, true, true),
            },
        ]
    }
}

/// Lays out exactly three items. See [`spec_layout_three`].
pub fn layout_three_children(
    ratios: &Vec<i64>,
    proportions: &Vec<ProportionClass>,
    average_aspect_ratio: i64,
    width: i64,
) -> (r: Vec<LayoutItem>)
    requires
        ratios@.len() == 3,
        template_ratios(ratios@),
        template_width(width as int),
        proportions@ == spec_signature(ratios@),
        average_aspect_ratio as int == spec_average_ratio(ratios@),
    ensures
        crate::item::views_of(r@) == spec_layout_three(ratios@, width as int),
        r@.len() == 3,
{
    let a0 = ratios[0];
    let a1 = ratios[1];
    let a2 = ratios[2];
    assert(proportions@[0] == spec_classify(ratios@[0]));
    proof {
        crate::math::lemma_sum_to_bounds(ratios@, 3, 1, FORCE_FALLBACK_RATIO_THRESHOLD as int);
        vstd::arithmetic::div_mod::lemma_div_pos_is_pos(crate::math::sum_of(ratios@), 3);
    }
    assert(1 <= average_aspect_ratio <= 2000);
    let height = width * 1000 / average_aspect_ratio;
    proof {
        vstd::arithmetic::div_mod::lemma_div_pos_is_pos(
            width as int * 1000,
            average_aspect_ratio as int,
        );
        vstd::arithmetic::div_mod::lemma_div_is_ordered_by_denominator(
            width as int * 1000,
            1,
            average_aspect_ratio as int,
        );
    }
    assert(0 <= height <= 0x3B9A_CA00);

    let mut out: Vec<LayoutItem> = Vec::new();
    if proportions[0] == ProportionClass::Narrow {
        proof {
            crate::math::lemma_mul_bounds_abs(a1 as int, width as int, 2000, 0x10_0000);
            vstd::arithmetic::div_mod::lemma_div_pos_is_pos(
                a1 as int * width as int,
                a2 as int + a0 as int,
            );
            vstd::arithmetic::div_mod::lemma_div_is_ordered_by_denominator(
                a1 as int * width as int,
                1,
                a2 as int + a0 as int,
            );
        }
        let third_height = min64(height / 2, round_unit(a1 * width / (a2 + a0)));
        let second_height = height - third_height;
        proof {
            crate::math::lemma_mul_bounds_abs(third_height as int, a2 as int, 0x3B9A_CA00, 2000);
            crate::math::lemma_mul_bounds_abs(second_height as int, a1 as int, 0x3B9A_CA00, 2000);
            vstd::arithmetic::div_mod::lemma_div_pos_is_pos(
                third_height as int * a2 as int,
                1000,
            );
            vstd::arithmetic::div_mod::lemma_div_pos_is_pos(
                second_height as int * a1 as int,
                1000,
            );
        }
        let right_width = max64(
            min64(width / 2, round_unit(min64(third_height * a2 / 1000, second_height * a1 / 1000))),
            MIN_ROW_WIDTH,
        );
        proof {
            crate::math::lemma_mul_bounds_abs(height as int, a0 as int, 0x3B9A_CA00, 2000);
            vstd::arithmetic::div_mod::lemma_div_pos_is_pos(height as int * a0 as int, 1000);
        }
        let left_width = round_unit(min64(height * a0 / 1000, width - right_width));
        out.push(
            LayoutItem {
                aspect_ratio: a0,
                frame: Frame { x: 0, y: 0, width: left_width, height },
                flags: PositionFlags::from_edges(true, true, false, true),
            },
        );
        out.push(
            LayoutItem {
                aspect_ratio: a1,
                frame: Frame { x: left_width, y: 0, width: right_width, height: second_height },
                flags: PositionFlags::from_edges(true, false, true, false),
            },
        );
        out.push(
            LayoutItem {
                aspect_ratio: a2,
                frame: Frame {
                    x: left_width,
                    y: second_height,
                    width: right_width,
                    height: third_height,
                },
                flags: PositionFlags::from_edges(false, false, true, true),
            },
        );
    } else {
        proof {
            vstd::arithmetic::div_mod::lemma_div_pos_is_pos(width as int * 1000, a0 as int);
            vstd::arithmetic::div_mod::lemma_div_is_ordered_by_denominator(
                width as int * 1000,
                1,
                a0 as int,
            );
            vstd::arithmetic::div_mod::lemma_div_pos_is_pos(height as int * 66, 100);
            vstd::arithmetic::div_mod::lemma_div_is_ordered(
                height as int * 66,
                height as int * 100,
                100,
            );
            assert((height as int * 100) / 100 == height as int) by {
                vstd::arithmetic::div_mod::lemma_div_multiples_vanish(height as int, 100);
                assert(height as int * 100 == 100 * height as int);
            }
        }
        let first_height = crate::math::floor_unit(min64(width * 1000 / a0, height * 66 / 100));
        let half = width / 2;
        proof {
            vstd::arithmetic::div_mod::lemma_div_pos_is_pos(half as int * 1000, a1 as int);
            vstd::arithmetic::div_mod::lemma_div_pos_is_pos(half as int * 1000, a2 as int);
            vstd::arithmetic::div_mod::lemma_div_is_ordered_by_denominator(
                half as int * 1000,
                1,
                a1 as int,
            );
            vstd::arithmetic::div_mod::lemma_div_is_ordered_by_denominator(
                half as int * 1000,
                1,
                a2 as int,
            );
        }
        let second_height = min64(
            height - first_height,
            round_unit(min64(half * 1000 / a1, half * 1000 / a2)),
        );
        out.push(
            LayoutItem {
                aspect_ratio: a0,
                frame: Frame { x: 0, y: 0, width, height: first_height },
                flags: PositionFlags::from_edges(true, true, true, false),
            },
        );
        out.push(
            LayoutItem {
                aspect_ratio: a1,
                frame: Frame { x: 0, y: first_height, width: half, height: second_height },
                flags: PositionFlags::from_edges(false, true, false, true),
            },
        );
        out.push(
            LayoutItem {
                aspect_ratio: a2,
                frame: Frame { x: half, y: first_height, width: half, height: second_height },
                flags: PositionFlags::from_edges(false, false, true, true),
            },
        );
    }
    assert(crate::item::views_of(out@) =~= spec_layout_three(ratios@, width as int));
    out
}

/// The four-item template.
///
/// A wide first item becomes a full-width top strip at its own height, over
/// three cells sharing one row of height `(width - 2) / (a1 + a2 + a3)`;
/// the outer cells get at least a third of the row, and a middle cell that
/// falls under 70 units is forced to 70 with the shortfall taken from the
/// third cell. Otherwise the first item becomes a tall left column and the
/// rest stack on the right at the harmonic width `(height - 2) /
/// (1/a1 + 1/a2 + 1/a3)`, with a 2-unit gap before the last cell.
pub open spec fn spec_layout_four(rs: Seq<i64>, width: int) -> Seq<ItemModel> {
    let a0 = rs[0] as int;
    let a1 = rs[1] as int;
    let a2 = rs[2] as int;
    let a3 = rs[3] as int;
    if spec_classify(rs[0]) == ProportionClass::Wide {
        let top_height = width * 1000 / a0;
        let row_height = (width - 2000) * 1000 / (a1 + a2 + a3);
        let first_width = max((width - 2000) * 33 / 100, row_height * a1 / 1000);
        let third_width = max((width - 2000) * 33 / 100, row_height * a3 / 1000);
        let middle_width = width - first_width - third_width - 2000;
        let middle_clamped = if middle_width < MIN_ROW_WIDTH as int {
            MIN_ROW_WIDTH as int
        } else {
            middle_width
        };
        let third_clamped = if middle_width < MIN_ROW_WIDTH as int {
            third_width - (MIN_ROW_WIDTH as int - middle_width)
        } else {
            third_width
        };
        seq![
            ItemModel {
                aspect_ratio: a0,
                frame: FrameModel { x: 0, y: 0, width, height: top_height },
                flags: PositionFlags::spec_edges(true, true, true, false),
            },
            ItemModel {
                aspect_ratio: a1,
                frame: FrameModel { x: 0, y: top_height, width: first_width, height: row_height },
                flags: PositionFlags::spec_edges(false, true, false, true),
            },
            ItemModel {
                aspect_ratio: a2,
                frame: FrameModel {
                    x: first_width,
                    y: top_height,
                    width: middle_clamped,
                    height: row_height,
                },
                flags: PositionFlags::spec_edges(false, false, false, true),
            },
            ItemModel {
                aspect_ratio: a3,
                frame: FrameModel {
                    x: first_width + middle_clamped + 2000,
                    y: top_height,
                    width: third_clamped,
                    height: row_height,
                },
                flags: PositionFlags::spec_edges(false, false, true, true),
            },
        ]
    } else {
        let height = width * 1000 / spec_average_ratio(rs);
        let left_width = min(height * a0 / 1000, width * 6 / 10);
        let right_width = width - left_width;
        let cell_width = (height - 2000) * (a1 * a2 * a3) / (1000 * (a1 * a2 + a1 * a3 + a2 * a3));
        let first_height = cell_width * 1000 / a1;
        let second_height = cell_width * 1000 / a2;
        let third_height = cell_width * 1000 / a3;
        seq![
            ItemModel {
                aspect_ratio: a0,
                frame: FrameModel { x: 0, y: 0, width: left_width, height },
                flags: PositionFlags::spec_edges(true, true, false, true),
            },
            ItemModel {
                aspect_ratio: a1,
                frame: FrameModel { x: left_width, y: 0, width: right_width, height: first_height },
                flags: PositionFlags::spec_edges(true, false, true, false),
            },
            ItemModel {
                aspect_ratio: a2,
                frame: FrameModel {
                    x: left_width,
                    y: first_height,
                    width: right_width,
                    height: second_height,
                },
                flags: PositionFlags::spec_edges(false, false, true, false),
            },
            ItemModel {
                aspect_ratio: a3,
                frame: FrameModel {
                    x: left_width,
                    y: first_height + second_height + 2000,
                    width: right_width,
                    height: third_height,
                },
                flags: PositionFlags::spec_edges(false, false, true, true),
            },
        ]
    }
}

/// Lays out exactly four items. See [`spec_layout_four`].
pub fn layout_four_children(
    ratios: &Vec<i64>,
    proportions: &Vec<ProportionClass>,
    average_aspect_ratio: i64,
    width: i64,
) -> (r: Vec<LayoutItem>)
    requires
        ratios@.len() == 4,
        template_ratios(ratios@),
        template_width(width as int),
        proportions@ == spec_signature(ratios@),
        average_aspect_ratio as int == spec_average_ratio(ratios@),
    ensures
        crate::item::views_of(r@) == spec_layout_four(ratios@, width as int),
        r@.len() == 4,
{
    let a0 = ratios[0];
    let a1 = ratios[1];
    let a2 = ratios[2];
    let a3 = ratios[3];
    assert(proportions@[0] == spec_classify(ratios@[0]));

    let mut out: Vec<LayoutItem> = Vec::new();
    if proportions[0] == ProportionClass::Wide {
        proof {
            vstd::arithmetic::div_mod::lemma_div_pos_is_pos(width as int * 1000, a0 as int);
            vstd::arithmetic::div_mod::lemma_div_is_ordered_by_denominator(
                width as int * 1000,
                1,
                a0 as int,
            );
            vstd::arithmetic::div_mod::lemma_div_pos_is_pos(
                (width as int - 2000) * 1000,
                a1 as int + a2 as int + a3 as int,
            );
            vstd::arithmetic::div_mod::lemma_div_is_ordered_by_denominator(
                (width as int - 2000) * 1000,
                1,
                a1 as int + a2 as int + a3 as int,
            );
        }
        let top_height = width * 1000 / a0;
        let row_height = (width - 2000) * 1000 / (a1 + a2 + a3);
        assert(0 <= row_height <= 0x3B9A_CA00);
        proof {
            crate::math::lemma_mul_bounds_abs(row_height as int, a1 as int, 0x3B9A_CA00, 2000);
            crate::math::lemma_mul_bounds_abs(row_height as int, a3 as int, 0x3B9A_CA00, 2000);
            vstd::arithmetic::div_mod::lemma_div_pos_is_pos(row_height as int * a1 as int, 1000);
            vstd::arithmetic::div_mod::lemma_div_pos_is_pos(row_height as int * a3 as int, 1000);
        }
        let first_width = max64((width - 2000) * 33 / 100, row_height * a1 / 1000);
        let third_width = max64((width - 2000) * 33 / 100, row_height * a3 / 1000);
        let middle_width = width - first_width - third_width - 2000;
        let middle_clamped = if middle_width < MIN_ROW_WIDTH {
            MIN_ROW_WIDTH
        } else {
            middle_width
        };
        let third_clamped = if middle_width < MIN_ROW_WIDTH {
            third_width - (MIN_ROW_WIDTH - middle_width)
        } else {
            third_width
        };
        out.push(
            LayoutItem {
                aspect_ratio: a0,
                frame: Frame { x: 0, y: 0, width, height: top_height },
                flags: PositionFlags::from_edges(true, true, true, false),
            },
        );
        out.push(
            LayoutItem {
                aspect_ratio: a1,
                frame: Frame { x: 0, y: top_height, width: first_width, height: row_height },
                flags: PositionFlags::from_edges(false, true, false, true),
            },
        );
        out.push(
            LayoutItem {
                aspect_ratio: a2,
                frame: Frame {
                    x: first_width,
                    y: top_height,
                    width: middle_clamped,
                    height: row_height,
                },
                flags: PositionFlags::from_edges(false, false, false, true),
            },
        );
        out.push(
            LayoutItem {
                aspect_ratio: a3,
                frame: Frame {
                    x: first_width + middle_clamped + 2000,
                    y: top_height,
                    width: third_clamped,
                    height: row_height,
                },
                flags: PositionFlags::from_edges(false, false, true, true),
            },
        );
    } else {
        proof {
            crate::math::lemma_sum_to_bounds(ratios@, 4, 1, FORCE_FALLBACK_RATIO_THRESHOLD as int);
            vstd::arithmetic::div_mod::lemma_div_pos_is_pos(crate::math::sum_of(ratios@), 4);
        }
        assert(1 <= average_aspect_ratio <= 2000);
        let height = width * 1000 / average_aspect_ratio;
        proof {
            vstd::arithmetic::div_mod::lemma_div_pos_is_pos(
                width as int * 1000,
                average_aspect_ratio as int,
            );
            vstd::arithmetic::div_mod::lemma_div_is_ordered_by_denominator(
                width as int * 1000,
                1,
                average_aspect_ratio as int,
            );
            vstd::arithmetic::div_mod::lemma_div_is_ordered_by_denominator(
                width as int * 1000,
                average_aspect_ratio as int,
                2000,
            );
            vstd::arithmetic::div_mod::lemma_div_multiples_vanish_quotient(
                1000,
                width as int,
                2,
            );
            assert(1000 * width as int == width as int * 1000);
            assert(1000 * 2 == 2000);
            assert(height as int >= width as int / 2 >= 70000);
        }
        assert(2000 < height <= 0x3B9A_CA00);
        proof {
            crate::math::lemma_mul_bounds_abs(height as int, a0 as int, 0x3B9A_CA00, 2000);
            vstd::arithmetic::div_mod::lemma_div_pos_is_pos(height as int * a0 as int, 1000);
            vstd::arithmetic::div_mod::lemma_div_pos_is_pos(width as int * 6, 10);
            vstd::arithmetic::div_mod::lemma_div_is_ordered(
                width as int * 6,
                width as int * 10,
                10,
            );
            vstd::arithmetic::div_mod::lemma_div_multiples_vanish(width as int, 10);
            assert(width as int * 10 == 10 * width as int);
        }
        let left_width = min64(height * a0 / 1000, width * 6 / 10);
        let right_width = width - left_width;
        proof {
            crate::math::lemma_mul_bounds_abs(a1 as int, a2 as int, 2000, 2000);
            crate::math::lemma_mul_bounds_abs(a1 as int * a2 as int, a3 as int, 4_000_000, 2000);
            crate::math::lemma_mul_bounds_abs(a1 as int, a3 as int, 2000, 2000);
            crate::math::lemma_mul_bounds_abs(a2 as int, a3 as int, 2000, 2000);
            crate::math::lemma_mul_bounds_abs(
                height as int - 2000,
                a1 as int * a2 as int * a3 as int,
                0x3B9A_CA00,
                8_000_000_000,
            );
            assert(1 <= a1 as int * a2 as int * a3 as int) by (nonlinear_arith)
                requires
                    1 <= a1 as int && 1 <= a2 as int && 1 <= a3 as int,
            ;
            assert(3 <= a1 as int * a2 as int + a1 as int * a3 as int + a2 as int * a3 as int)
                by (nonlinear_arith)
                requires
                    1 <= a1 as int && 1 <= a2 as int && 1 <= a3 as int,
            ;
        }
        let numerator: i128 = (height as i128 - 2000) * (a1 as i128 * a2 as i128 * a3 as i128);
        let denominator: i128 = 1000 * (a1 as i128 * a2 as i128 + a1 as i128 * a3 as i128
            + a2 as i128 * a3 as i128);
        proof {
            vstd::arithmetic::div_mod::lemma_div_pos_is_pos(
                numerator as int,
                denominator as int,
            );
            vstd::arithmetic::div_mod::lemma_div_is_ordered_by_denominator(
                numerator as int,
                3000,
                denominator as int,
            );
            vstd::arithmetic::div_mod::lemma_div_is_ordered(
                numerator as int,
                8_000_000_000_000_000_000,
                3000,
            );
        }
        let cell_wide: i128 = numerator / denominator;
        assert(0 <= cell_wide <= 2_666_666_666_666_666);
        let cell_width: i64 = cell_wide as i64;
        proof {
            vstd::arithmetic::div_mod::lemma_div_pos_is_pos(cell_width as int * 1000, a1 as int);
            vstd::arithmetic::div_mod::lemma_div_pos_is_pos(cell_width as int * 1000, a2 as int);
            vstd::arithmetic::div_mod::lemma_div_pos_is_pos(cell_width as int * 1000, a3 as int);
            vstd::arithmetic::div_mod::lemma_div_is_ordered_by_denominator(
                cell_width as int * 1000,
                1,
                a1 as int,
            );
            vstd::arithmetic::div_mod::lemma_div_is_ordered_by_denominator(
                cell_width as int * 1000,
                1,
                a2 as int,
            );
            vstd::arithmetic::div_mod::lemma_div_is_ordered_by_denominator(
                cell_width as int * 1000,
                1,
                a3 as int,
            );
        }
        let first_height = cell_width * 1000 / a1;
        let second_height = cell_width * 1000 / a2;
        let third_height = cell_width * 1000 / a3;
        out.push(
            LayoutItem {
                aspect_ratio: a0,
                frame: Frame { x: 0, y: 0, width: left_width, height },
                flags: PositionFlags::from_edges(true, true, false, true),
            },
        );
        out.push(
            LayoutItem {
                aspect_ratio: a1,
                frame: Frame { x: left_width, y: 0, width: right_width, height: first_height },
                flags: PositionFlags::from_edges(true, false, true, false),
            },
        );
        out.push(
            LayoutItem {
                aspect_ratio: a2,
                frame: Frame {
                    x: left_width,
                    y: first_height,
                    width: right_width,
                    height: second_height,
                },
                flags: PositionFlags::from_edges(false, false, true, false),
            },
        );
        out.push(
            LayoutItem {
                aspect_ratio: a3,
                frame: Frame {
                    x: left_width,
                    y: first_height + second_height + 2000,
                    width: right_width,
                    height: third_height,
                },
                flags: PositionFlags::from_edges(false, false, true, true),
            },
        );
    }
    assert(crate::item::views_of(out@) =~= spec_layout_four(ratios@, width as int));
    out
}

} // verus!
