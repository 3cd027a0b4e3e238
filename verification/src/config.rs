//! Tuned configuration constants of the layout core.
//!
//! Geometry is carried in milli-units: one logical unit of the normalized
//! 480-unit-wide space is [`UNIT`] milli-units. Aspect ratios are likewise in
//! thousandths. The thresholds are empirically tuned values preserved as
//! named configuration.

use vstd::prelude::*;

verus! {

/// Milli-units per logical unit of the normalized space.
pub const UNIT: i64 = 1000;

/// Width of the normalized composition space: 480 logical units.
pub const TARGET_WIDTH: i64 = 480_000;

/// The row-partition search aims for a total height of 600 logical units.
pub const TARGET_TOTAL_HEIGHT: i64 = 600_000;

/// Rows or columns narrower than 70 logical units are considered degenerate.
pub const MIN_ROW_WIDTH: i64 = 70_000;

/// An aspect ratio above 1.2 classifies as wide.
pub const WIDE_THRESHOLD: i64 = 1_200;

/// An aspect ratio below 0.8 classifies as narrow.
pub const NARROW_THRESHOLD: i64 = 800;

/// Any aspect ratio above 2.0 forces the general fallback layout.
pub const FORCE_FALLBACK_RATIO_THRESHOLD: i64 = 2_000;

/// Smallest accepted aspect ratio: 0.001. Ratios are strictly positive.
pub const MIN_ASPECT_RATIO: i64 = 1;

/// Largest accepted aspect ratio: 1000.0. Keeps every intermediate product
/// of the layout arithmetic inside the machine integer range.
pub const MAX_ASPECT_RATIO: i64 = 1_000_000;

/// Largest accepted item count. Keeps the per-row gap budget of the fallback
/// search below the target width and all sums inside the machine range.
pub const MAX_ITEM_COUNT: usize = 400;

} // verus!
