//! Media-grid layout: a compact, balanced rectangular arrangement for a small
//! ordered collection of items with known aspect ratios, at a fixed target
//! composition width.
//!
//! All geometry lives in a normalized space keyed to a target width of 480
//! logical units, and is carried in fixed-point *milli-units*: one logical
//! unit is 1000 milli-units. Aspect ratios are width over height, also in
//! thousandths (a ratio of 1.5 is stored as 1500).
//!
//! The entry point is [`layout::layout`], which classifies the items, picks a
//! fixed template for two, three or four items (or a general row-partition
//! search otherwise), and returns one frame plus edge-adjacency flags per
//! item, in input order. [`item::LayoutItem::apply`] then scales, spaces and
//! rounds a normalized frame into a concrete integer placement for the host.

pub mod config;
pub mod math;
pub mod classify;
pub mod fallback;
pub mod guarantees;
pub mod specialized;
pub mod item;
pub mod layout;
pub mod position_flags;
