use ori::item::{measure_size, Frame, LayoutItem, Placement};
use ori::position_flags::PositionFlags;

fn item(x: i64, y: i64, width: i64, height: i64, fl: PositionFlags) -> LayoutItem {
    LayoutItem {
        aspect_ratio: 1000,
        frame: Frame { x, y, width, height },
        flags: fl,
    }
}

fn flags(top: bool, left: bool, right: bool, bottom: bool) -> PositionFlags {
    PositionFlags {
        top,
        left,
        right,
        bottom,
        inside: !top && !left && !right && !bottom,
    }
}

#[test]
fn flag_queries_read_each_edge() {
    let fl = flags(true, false, true, false);
    assert!(fl.at_top());
    assert!(!fl.at_left());
    assert!(fl.at_right());
    assert!(!fl.at_bottom());
    let none = PositionFlags::default();
    assert!(!none.at_top() && !none.at_left() && !none.at_right() && !none.at_bottom());
    assert!(!none.inside);
}

#[test]
fn from_edges_marks_inside_exactly_when_edgeless() {
    assert!(PositionFlags::from_edges(false, false, false, false).inside);
    assert!(!PositionFlags::from_edges(false, false, true, false).inside);
}

#[test]
fn apply_at_natural_scale_insets_only_inner_edges() {
    // A full-width top frame of 480 by 300 units at 480 pixels and 10
    // pixels of spacing: only the bottom edge is inner, so only the
    // height loses half the spacing.
    let top = item(0, 0, 480_000, 300_000, flags(true, true, true, false));
    let placed = top.apply(480, 10);
    assert_eq!(
        placed,
        Placement {
            x: 0,
            y: 0,
            width: 480,
            height: 295,
            at_left: true,
            at_top: true,
            at_right: true,
            at_bottom: false,
        }
    );
}

#[test]
fn apply_leaves_the_spacing_gap_between_neighbours() {
    // The frame below the one above: its top edge is inner, so it shifts
    // down by half the spacing and the two placements end 10 pixels
    // apart: 0..295, then 305..600.
    let bottom = item(0, 300_000, 480_000, 300_000, flags(false, true, true, true));
    let placed = bottom.apply(480, 10);
    assert_eq!(placed.y, 305);
    assert_eq!(placed.height, 295);
    assert_eq!(placed.x, 0);
    assert_eq!(placed.width, 480);
    assert!(!placed.at_top && placed.at_bottom);
}

#[test]
fn apply_scales_and_insets_an_inside_frame() {
    // An inside frame at twice the width: every edge is inner, so every
    // side moves in by half the spacing, and far edges are rounded before
    // the near edges are subtracted.
    let inner = item(
        119_250,
        318_666,
        119_250,
        238_500,
        flags(false, false, false, false),
    );
    let placed = inner.apply(960, 8);
    assert_eq!(placed.x, 243);
    assert_eq!(placed.y, 641);
    assert_eq!(placed.width, 230);
    assert_eq!(placed.height, 469);
    assert!(!placed.at_left && !placed.at_top && !placed.at_right && !placed.at_bottom);
}

#[test]
fn measure_reports_the_layout_aspect() {
    // A layout whose last frame ends at (480, 600) has aspect 0.8.
    let last = Frame { x: 0, y: 300_000, width: 480_000, height: 300_000 };
    assert_eq!(measure_size(&last, true, -1), 600);
    assert_eq!(measure_size(&last, false, -1), 480);
    assert_eq!(measure_size(&last, true, 240), 300);
    assert_eq!(measure_size(&last, false, 600), 480);
}

#[test]
fn measure_rounds_to_the_nearest_pixel() {
    let last = Frame { x: 0, y: 0, width: 480_000, height: 300_000 };
    // 333 * 300 / 480 = 208.125, rounded to 208.
    assert_eq!(measure_size(&last, true, 333), 208);
}
