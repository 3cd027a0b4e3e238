use ori::item::{Frame, LayoutItem};
use ori::layout::layout;
use ori::position_flags::PositionFlags;

fn flags(top: bool, left: bool, right: bool, bottom: bool) -> PositionFlags {
    PositionFlags {
        top,
        left,
        right,
        bottom,
        inside: !top && !left && !right && !bottom,
    }
}

fn frame(x: i64, y: i64, width: i64, height: i64) -> Frame {
    Frame { x, y, width, height }
}

#[test]
fn two_wide_similar_items_stack_vertically() {
    // Ratios 1.6 and 1.5: both wide, average 1.55 above 1.4, difference 0.1
    // below 0.2, so the frames stack at full width and the height the
    // narrower ratio implies: min(480 / 1.6, 480 / 1.5) = 300 units.
    let items = layout(&vec![1600, 1500]);
    assert_eq!(items.len(), 2);
    assert_eq!(items[0].frame, frame(0, 0, 480_000, 300_000));
    assert_eq!(items[0].flags, flags(true, true, true, false));
    assert_eq!(items[1].frame, frame(0, 300_000, 480_000, 300_000));
    assert_eq!(items[1].flags, flags(false, true, true, true));
}

#[test]
fn three_narrow_items_take_the_tall_left_column_branch() {
    // Signature "nnn": the first item becomes a full-height left column
    // rather than the default full-width top strip.
    let items = layout(&vec![500, 500, 500]);
    assert_eq!(items.len(), 3);
    assert_eq!(items[0].frame, frame(0, 0, 360_000, 960_000));
    assert_eq!(items[0].flags, flags(true, true, false, true));
    assert_eq!(items[1].frame, frame(360_000, 0, 120_000, 720_000));
    assert_eq!(items[1].flags, flags(true, false, true, false));
    assert_eq!(items[2].frame, frame(360_000, 720_000, 120_000, 240_000));
    assert_eq!(items[2].flags, flags(false, false, true, true));
}

#[test]
fn five_squares_pick_the_partition_closest_to_the_target_height() {
    // Five items of ratio 1.0: the search settles on three over two, whose
    // total height lands closest to 600 units among the candidates, and
    // whose row sizes do not grow downwards.
    let items = layout(&vec![1000, 1000, 1000, 1000, 1000]);
    assert_eq!(items.len(), 5);
    assert_eq!(items[0].frame, frame(0, 0, 159_333, 159_333));
    assert_eq!(items[1].frame, frame(159_333, 0, 159_333, 159_333));
    assert_eq!(items[2].frame, frame(318_666, 0, 159_333, 159_333));
    assert_eq!(items[3].frame, frame(0, 159_333, 239_500, 239_500));
    assert_eq!(items[4].frame, frame(239_500, 159_333, 239_500, 239_500));
    assert_eq!(items[0].flags, flags(true, true, false, false));
    assert_eq!(items[1].flags, flags(true, false, false, false));
    assert_eq!(items[2].flags, flags(true, false, true, false));
    assert_eq!(items[3].flags, flags(false, true, false, true));
    assert_eq!(items[4].flags, flags(false, false, true, true));
}

#[test]
fn narrow_row_penalty_rejects_the_closer_partition() {
    // Among the candidates for these six ratios, two rows of two over two
    // single rows scores a raw distance of 111.1 units from the target,
    // while three rows of two comes closer at 100.472 — but its last row
    // is only about 68.4 units high, under the 70-unit minimum, so the
    // penalty multiplier hands the win to the partition with no narrow
    // row.
    let items = layout(&vec![800, 1000, 1000, 1500, 3000, 4000]);
    assert_eq!(items.len(), 6);
    // Rows 2, 2, 1, 1: heights 239.5, 191.6, 160, 120 units.
    assert_eq!(items[0].frame, frame(0, 0, 239_500, 239_500));
    assert_eq!(items[1].frame, frame(239_500, 0, 239_500, 239_500));
    assert_eq!(items[2].frame, frame(0, 239_500, 191_600, 191_600));
    assert_eq!(items[3].frame, frame(191_600, 239_500, 287_400, 191_600));
    assert_eq!(items[4].frame, frame(0, 431_100, 480_000, 160_000));
    assert_eq!(items[5].frame, frame(0, 591_100, 480_000, 120_000));
    assert_eq!(items[5].flags, flags(false, true, true, true));
}

#[test]
fn identical_inputs_give_identical_layouts() {
    let ratios = vec![900, 1700, 400, 1000, 2500, 800, 1200];
    let first = layout(&ratios);
    let second = layout(&ratios);
    assert_eq!(first, second);
}

#[test]
fn output_keeps_input_length_and_order() {
    let ratios = vec![700, 1900, 1000, 450, 1300, 1000, 2100, 600, 990];
    let items = layout(&ratios);
    assert_eq!(items.len(), ratios.len());
    for (item, ratio) in items.iter().zip(ratios.iter()) {
        assert_eq!(item.aspect_ratio, *ratio);
    }
}

#[test]
fn an_extreme_ratio_forces_the_fallback_for_two_items() {
    // A ratio above 2.0 bypasses the two-item template: the result is the
    // single-column fallback stacking, not a template split.
    let items = layout(&vec![3000, 1000]);
    assert_eq!(items[0].frame, frame(0, 0, 480_000, 160_000));
    assert_eq!(items[0].flags, flags(true, true, true, false));
    assert_eq!(items[1].frame, frame(0, 160_000, 480_000, 480_000));
    assert_eq!(items[1].flags, flags(false, true, true, true));
}

#[test]
fn middle_items_of_a_middle_row_are_inside() {
    // Ten narrow items: the average ratio 0.5 is below 0.85, so a middle
    // row of four is allowed and the rows are 3, 4, 3. The two central
    // items of the middle row touch no edge and are marked inside.
    let items = layout(&vec![500; 10]);
    assert_eq!(items.len(), 10);
    assert_eq!(items[3].frame, frame(0, 318_666, 119_250, 238_500));
    assert_eq!(items[4].frame, frame(119_250, 318_666, 119_250, 238_500));
    assert_eq!(items[4].flags, flags(false, false, false, false));
    assert!(items[4].flags.inside);
    assert_eq!(items[5].flags, flags(false, false, false, false));
    assert_eq!(items[6].flags, flags(false, false, true, false));
    assert_eq!(items[9].frame, frame(318_666, 557_166, 159_333, 318_666));
}

#[test]
fn layout_items_start_empty() {
    let item = LayoutItem::new(1500);
    assert_eq!(item.aspect_ratio, 1500);
    assert_eq!(item.frame, frame(0, 0, 0, 0));
    assert!(!item.flags.top && !item.flags.inside);
}

#[test]
fn rows_tile_the_composition() {
    // Within each fallback row the frames are contiguous; across rows the
    // next row starts exactly where the previous one ends.
    let items = layout(&vec![1000, 1000, 1000, 1000, 1000]);
    assert_eq!(items[0].frame.x + items[0].frame.width, items[1].frame.x);
    assert_eq!(items[1].frame.x + items[1].frame.width, items[2].frame.x);
    assert_eq!(items[3].frame.x + items[3].frame.width, items[4].frame.x);
    assert_eq!(
        items[0].frame.y + items[0].frame.height,
        items[3].frame.y
    );
}
