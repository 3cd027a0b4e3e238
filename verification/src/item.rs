//! Per-item layout records: the normalized frame computed for an item, the
//! record tying it to the item's aspect ratio and edge flags, and the frame
//! applier that turns a normalized frame into a concrete integer placement.

use vstd::prelude::*;

use crate::math::round_to_whole;
use crate::math::round_whole;
use crate::position_flags::PositionFlags;

verus! {

/// A rectangle in the normalized composition space, in milli-units.
///
/// Width and height may be negative in degenerate template cases (mirroring
/// the unchecked real arithmetic they stand for); positions are nonnegative.
#[derive(Clone, Copy, Debug, PartialEq, Eq, Structural)]
pub struct Frame {
    pub x: i64,
    pub y: i64,
    pub width: i64,
    pub height: i64,
}

/// The mathematical value of a [`Frame`]: the same rectangle over unbounded
/// integers.
pub ghost struct FrameModel {
    pub x: int,
    pub y: int,
    pub width: int,
    pub height: int,
}

impl View for Frame {
    type V = FrameModel;

    open spec fn view(&self) -> FrameModel {
        FrameModel {
            x: self.x as int,
            y: self.y as int,
            width: self.width as int,
            height: self.height as int,
        }
    }
}

impl Frame {
    /// The all-zero rectangle a fresh item starts from.
    pub open spec fn spec_zero() -> FrameModel {
        FrameModel { x: 0, y: 0, width: 0, height: 0 }
    }

    /// Builds a frame from milli-unit components.
    pub fn new(x: i64, y: i64, width: i64, height: i64) -> (r: Frame)
        ensures
            r@ == (FrameModel { x: x as int, y: y as int, width: width as int, height: height as int }),
    {
        Frame { x, y, width, height }
    }
}

/// One child of the composition: its aspect ratio (the input) and the frame
/// and edge flags the layout computed for it (the outputs).
#[derive(Clone, Copy, Debug, PartialEq, Eq, Structural)]
pub struct LayoutItem {
    pub aspect_ratio: i64,
    pub frame: Frame,
    pub flags: PositionFlags,
}

/// The mathematical value of a [`LayoutItem`].
pub ghost struct ItemModel {
    pub aspect_ratio: int,
    pub frame: FrameModel,
    pub flags: PositionFlags,
}

impl View for LayoutItem {
    type V = ItemModel;

    open spec fn view(&self) -> ItemModel {
        ItemModel { aspect_ratio: self.aspect_ratio as int, frame: self.frame@, flags: self.flags }
    }
}

/// The item views of a whole collection, in order.
pub open spec fn views_of(s: Seq<LayoutItem>) -> Seq<ItemModel> {
    s.map_values(|it: LayoutItem| it@)
}

/// A concrete placement handed to the host: integer pixel position and size,
/// plus the edge-adjacency tags for styling, derived one-to-one from the
/// item's [`PositionFlags`].
#[derive(Clone, Copy, Debug, PartialEq, Eq, Structural)]
pub struct Placement {
    pub x: i64,
    pub y: i64,
    pub width: i64,
    pub height: i64,
    pub at_left: bool,
    pub at_top: bool,
    pub at_right: bool,
    pub at_bottom: bool,
}

/// The mathematical value of a [`Placement`].
pub ghost struct PlacementModel {
    pub x: int,
    pub y: int,
    pub width: int,
    pub height: int,
    pub at_left: bool,
    pub at_top: bool,
    pub at_right: bool,
    pub at_bottom: bool,
}

impl View for Placement {
    type V = PlacementModel;

    open spec fn view(&self) -> PlacementModel {
        PlacementModel {
            x: self.x as int,
            y: self.y as int,
            width: self.width as int,
            height: self.height as int,
            at_left: self.at_left,
            at_top: self.at_top,
            at_right: self.at_right,
            at_bottom: self.at_bottom,
        }
    }
}

/// What the frame applier computes: scale the normalized frame by
/// `actual_width / 480`, inset every side that is not an outer edge by half
/// the spacing, then round so that each far edge is rounded before the near
/// edge is derived from it, preventing rounding drift between neighbours.
pub open spec fn spec_apply(
    frame: FrameModel,
    flags: PositionFlags,
    actual_width: int,
    spacing: int,
) -> PlacementModel {
    let sx0 = crate::math::scale_to_width(frame.x, actual_width);
    let sy0 = crate::math::scale_to_width(frame.y, actual_width);
    let sw0 = crate::math::scale_to_width(frame.width, actual_width);
    let sh0 = crate::math::scale_to_width(frame.height, actual_width);
    let half = spacing * 500;
    let sx = if flags.left { sx0 } else { sx0 + half };
    let sw1 = if flags.left { sw0 } else { sw0 - half };
    let sw = if flags.right { sw1 } else { sw1 - half };
    let sy = if flags.top { sy0 } else { sy0 + half };
    let sh1 = if flags.top { sh0 } else { sh0 - half };
    let sh = if flags.bottom { sh1 } else { sh1 - half };
    PlacementModel {
        x: round_to_whole(sx),
        y: round_to_whole(sy),
        width: round_to_whole(sx + sw) - round_to_whole(sx),
        height: round_to_whole(sy + sh) - round_to_whole(sy),
        at_left: flags.left,
        at_top: flags.top,
        at_right: flags.right,
        at_bottom: flags.bottom,
    }
}

impl LayoutItem {
    /// A fresh record for an item whose aspect ratio the host extracted:
    /// no frame or flags computed yet.
    pub fn new(aspect_ratio: i64) -> (r: LayoutItem)
        ensures
            r@.aspect_ratio == aspect_ratio as int,
            r@.frame == Frame::spec_zero(),
            r@.flags == PositionFlags::spec_none(),
    {
        LayoutItem {
            aspect_ratio,
            frame: Frame { x: 0, y: 0, width: 0, height: 0 },
            flags: PositionFlags {
                top: false,
                left: false,
                right: false,
                bottom: false,
                inside: false,
            },
        }
    }

    /// Converts this item's normalized frame into a concrete placement for a
    /// composition that is `actual_width` pixels wide with `spacing` pixels
    /// between neighbouring items.
    pub fn apply(&self, actual_width: i64, spacing: i64) -> (r: Placement)
        requires
            -0x2_0000_0000 <= self@.frame.x <= 0x2_0000_0000,
            -0x2_0000_0000 <= self@.frame.y <= 0x2_0000_0000,
            -0x2_0000_0000 <= self@.frame.width <= 0x2_0000_0000,
            -0x2_0000_0000 <= self@.frame.height <= 0x2_0000_0000,
            0 <= actual_width <= 0x10_0000,
            0 <= spacing <= 0x10_0000,
        ensures
            r@ == spec_apply(self@.frame, self@.flags, actual_width as int, spacing as int),
    {
        let sx0 = crate::math::scale_width(self.frame.x, actual_width);
        let sy0 = crate::math::scale_width(self.frame.y, actual_width);
        let sw0 = crate::math::scale_width(self.frame.width, actual_width);
        let sh0 = crate::math::scale_width(self.frame.height, actual_width);
        let half = spacing * 500;
        let sx = if self.flags.left { sx0 } else { sx0 + half };
        let sw1 = if self.flags.left { sw0 } else { sw0 - half };
        let sw = if self.flags.right { sw1 } else { sw1 - half };
        let sy = if self.flags.top { sy0 } else { sy0 + half };
        let sh1 = if self.flags.top { sh0 } else { sh0 - half };
        let sh = if self.flags.bottom { sh1 } else { sh1 - half };
        let near_x = round_whole(sx);
        let near_y = round_whole(sy);
        let far_x = round_whole(sx + sw);
        let far_y = round_whole(sy + sh);
        Placement {
            x: near_x,
            y: near_y,
            width: far_x - near_x,
            height: far_y - near_y,
            at_left: self.flags.left,
            at_top: self.flags.top,
            at_right: self.flags.right,
            at_bottom: self.flags.bottom,
        }
    }
}

/// Size rounded from scaling `amount` by the ratio `num / den`, halves up.
pub open spec fn spec_rounded_scale(amount: int, num: int, den: int) -> int {
    (2 * amount * num + den) / (2 * den)
}

/// The size the composition reports for a measurement request, derived from
/// the overall aspect ratio of the computed layout (the far corner of its
/// last frame). A `for_size` of -1 asks for the natural size; otherwise the
/// answer is the matching extent for a composition constrained to
/// `for_size` pixels in the opposite orientation.
pub open spec fn spec_measure_size(last: FrameModel, vertical: bool, for_size: int) -> int {
    let layout_width = last.x + last.width;
    let layout_height = last.y + last.height;
    if for_size == -1 {
        if vertical {
            spec_rounded_scale(480, layout_height, layout_width)
        } else {
            480
        }
    } else {
        if vertical {
            spec_rounded_scale(for_size, layout_height, layout_width)
        } else {
            spec_rounded_scale(for_size, layout_width, layout_height)
        }
    }
}

/// Reports the pixel size of the composition for one measurement request,
/// given the last computed frame. See [`spec_measure_size`].
pub fn measure_size(last: &Frame, vertical: bool, for_size: i64) -> (r: i64)
    requires
        -0x2_0000_0000 <= last@.x <= 0x2_0000_0000,
        -0x2_0000_0000 <= last@.y <= 0x2_0000_0000,
        -0x2_0000_0000 <= last@.width <= 0x2_0000_0000,
        -0x2_0000_0000 <= last@.height <= 0x2_0000_0000,
        1 <= last@.x + last@.width <= 0x2_0000_0000,
        1 <= last@.y + last@.height <= 0x2_0000_0000,
        for_size == -1 || 0 <= for_size <= 0x10_0000,
    ensures
        r == spec_measure_size(last@, vertical, for_size as int),
{
    let layout_width = last.x + last.width;
    let layout_height = last.y + last.height;
    if for_size == -1 {
        if vertical {
            (960 * layout_height + layout_width) / (2 * layout_width)
        } else {
            480
        }
    } else {
        proof {
            crate::math::lemma_mul_bounds_abs(
                2 * for_size as int,
                layout_height as int,
                0x20_0000,
                0x2_0000_0000,
            );
            crate::math::lemma_mul_bounds_abs(
                2 * for_size as int,
                layout_width as int,
                0x20_0000,
                0x2_0000_0000,
            );
        }
        if vertical {
            (2 * for_size * layout_height + layout_width) / (2 * layout_width)
        } else {
            (2 * for_size * layout_width + layout_height) / (2 * layout_height)
        }
    }
}

} // verus!
