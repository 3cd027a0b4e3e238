use ori::classify::{classify, signature, ProportionClass};
use ori::item::Frame;
use ori::layout::{layout, select_strategy, Strategy};
use ori::position_flags::PositionFlags;

fn flags(top: bool, left: bool, right: bool, bottom: bool) -> PositionFlags {
    PositionFlags {
        top,
        left,
        right,
        bottom,
        inside: !top && !left && !right && !bottom,
    }
}

fn frame(x: i64, y: i64, width: i64, height: i64) -> Frame {
    Frame { x, y, width, height }
}

#[test]
fn classifier_thresholds_are_exclusive() {
    assert_eq!(classify(1201), ProportionClass::Wide);
    assert_eq!(classify(1200), ProportionClass::Square);
    assert_eq!(classify(800), ProportionClass::Square);
    assert_eq!(classify(799), ProportionClass::Narrow);
    assert_eq!(classify(1), ProportionClass::Narrow);
    assert_eq!(classify(1_000_000), ProportionClass::Wide);
}

#[test]
fn signature_lists_one_class_per_item() {
    let sig = signature(&vec![1600, 500, 1000]);
    assert_eq!(
        sig,
        vec![
            ProportionClass::Wide,
            ProportionClass::Narrow,
            ProportionClass::Square,
        ]
    );
}

#[test]
fn strategy_follows_count_unless_forced() {
    assert_eq!(select_strategy(2, false), Strategy::Two);
    assert_eq!(select_strategy(3, false), Strategy::Three);
    assert_eq!(select_strategy(4, false), Strategy::Four);
    assert_eq!(select_strategy(5, false), Strategy::Fallback);
    assert_eq!(select_strategy(2, true), Strategy::Fallback);
    assert_eq!(select_strategy(4, true), Strategy::Fallback);
}

#[test]
fn two_squares_split_the_width_in_half() {
    let items = layout(&vec![1000, 1100]);
    assert_eq!(items[0].frame, frame(0, 0, 240_000, 218_181));
    assert_eq!(items[0].flags, flags(true, true, false, true));
    assert_eq!(items[1].frame, frame(240_000, 0, 240_000, 218_181));
    assert_eq!(items[1].flags, flags(true, false, true, true));
}

#[test]
fn two_mixed_items_split_at_equal_heights() {
    // A narrow and a wide item: the split point width * a0 / (a0 + a1)
    // equalizes the two implied heights.
    let items = layout(&vec![600, 1600]);
    assert_eq!(items[0].frame, frame(0, 0, 130_909, 218_181));
    assert_eq!(items[1].frame, frame(130_909, 0, 349_091, 218_181));
    assert_eq!(items[0].flags, flags(true, true, false, true));
    assert_eq!(items[1].flags, flags(true, false, true, true));
}

#[test]
fn three_squares_take_the_top_strip_branch() {
    let items = layout(&vec![1000, 1000, 1000]);
    assert_eq!(items[0].frame, frame(0, 0, 480_000, 316_000));
    assert_eq!(items[0].flags, flags(true, true, true, false));
    assert_eq!(items[1].frame, frame(0, 316_000, 240_000, 164_000));
    assert_eq!(items[1].flags, flags(false, true, false, true));
    assert_eq!(items[2].frame, frame(240_000, 316_000, 240_000, 164_000));
    assert_eq!(items[2].flags, flags(false, false, true, true));
}

#[test]
fn four_with_a_wide_leader_put_it_on_top() {
    let items = layout(&vec![1500, 1000, 1000, 1000]);
    assert_eq!(items[0].frame, frame(0, 0, 480_000, 320_000));
    assert_eq!(items[0].flags, flags(true, true, true, false));
    assert_eq!(items[1].frame, frame(0, 320_000, 159_333, 159_333));
    assert_eq!(items[1].flags, flags(false, true, false, true));
    assert_eq!(items[2].frame, frame(159_333, 320_000, 159_334, 159_333));
    assert_eq!(items[2].flags, flags(false, false, false, true));
    assert_eq!(items[3].frame, frame(320_667, 320_000, 159_333, 159_333));
    assert_eq!(items[3].flags, flags(false, false, true, true));
}

#[test]
fn four_squares_put_a_column_on_the_left() {
    let items = layout(&vec![1000, 1000, 1000, 1000]);
    assert_eq!(items[0].frame, frame(0, 0, 288_000, 480_000));
    assert_eq!(items[0].flags, flags(true, true, false, true));
    assert_eq!(items[1].frame, frame(288_000, 0, 192_000, 159_333));
    assert_eq!(items[1].flags, flags(true, false, true, false));
    assert_eq!(items[2].frame, frame(288_000, 159_333, 192_000, 159_333));
    assert_eq!(items[2].flags, flags(false, false, true, false));
    assert_eq!(items[3].frame, frame(288_000, 320_666, 192_000, 159_333));
    assert_eq!(items[3].flags, flags(false, false, true, true));
}
