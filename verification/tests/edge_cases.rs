use ori::item::Frame;
use ori::layout::layout;

fn frame(x: i64, y: i64, width: i64, height: i64) -> Frame {
    Frame { x, y, width, height }
}

#[test]
fn the_largest_accepted_collection_fits_one_row() {
    // At 400 items only the single-row partition exists: the multi-row
    // splits cap every row at three or four items. Each square item gets
    // 0.202 units once the 399 one-unit gaps are budgeted, and the row,
    // being both first and last, touches the top and the bottom alike.
    let items = layout(&vec![1000; 400]);
    assert_eq!(items.len(), 400);
    assert_eq!(items[0].frame, frame(0, 0, 202, 202));
    assert!(items[0].flags.top && items[0].flags.left && items[0].flags.bottom);
    assert!(!items[0].flags.right);
    assert_eq!(items[1].frame, frame(202, 0, 202, 202));
    assert!(items[1].flags.top && items[1].flags.bottom);
    assert!(!items[1].flags.left && !items[1].flags.right && !items[1].flags.inside);
    assert_eq!(items[399].frame, frame(80_598, 0, 202, 202));
    assert!(items[399].flags.right && items[399].flags.top && items[399].flags.bottom);
}

#[test]
fn a_single_fallback_row_touches_top_and_bottom() {
    // A very wide item beside a very narrow one: the extreme ratio forces
    // the fallback and the one-row candidate wins. Its items touch both
    // horizontal edges of the composition at once — the flags are a set,
    // not exclusive.
    let items = layout(&vec![2100, 100]);
    assert_eq!(items.len(), 2);
    assert_eq!(items[0].frame, frame(0, 0, 435_454, 435_454));
    assert!(items[0].flags.top && items[0].flags.bottom && items[0].flags.left);
    assert!(!items[0].flags.right && !items[0].flags.inside);
    assert_eq!(items[1].frame, frame(435_454, 0, 43_545, 435_454));
    assert!(items[1].flags.top && items[1].flags.bottom && items[1].flags.right);
    assert!(!items[1].flags.left);
}

#[test]
fn a_ratio_of_exactly_two_still_uses_the_template() {
    // The force threshold is strict: 2.0 itself is not extreme, so two
    // such items stack by the wide-pair template.
    let items = layout(&vec![2000, 2000]);
    assert_eq!(items[0].frame, frame(0, 0, 480_000, 240_000));
    assert_eq!(items[1].frame, frame(0, 240_000, 480_000, 240_000));
}

#[test]
fn a_ratio_just_over_two_forces_the_fallback() {
    // 2.001 is extreme: the pair goes to the row search, which stacks
    // them in two single-item rows instead of the template's shapes.
    let items = layout(&vec![2001, 2000]);
    assert_eq!(items[0].frame, frame(0, 0, 479_999, 239_880));
    assert_eq!(items[1].frame, frame(0, 239_880, 480_000, 240_000));
    assert!(items[0].flags.top && !items[0].flags.bottom);
    assert!(items[1].flags.bottom && !items[1].flags.top);
}

#[test]
fn the_smallest_and_largest_ratios_are_accepted() {
    let items = layout(&vec![1, 1_000_000]);
    assert_eq!(items.len(), 2);
    assert_eq!(items[0].aspect_ratio, 1);
    assert_eq!(items[1].aspect_ratio, 1_000_000);
}
