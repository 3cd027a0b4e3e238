//! Edge-adjacency metadata attached to each computed frame.
//!
//! A frame can touch several edges of the composition at once (a corner item
//! is both at the top and at the left), so the flags form a small set rather
//! than an exclusive enum. `inside` is set only when no edge flag applies.

use vstd::prelude::*;

verus! {

/// Which edges of the whole composition a frame touches.
///
/// Downstream styling reads these to decide which corners of an item to
/// round. The flags are not exclusive: an item in the top-left corner has
/// both `top` and `left` set. `inside` marks an item that touches no edge at
/// all.
#[derive(Clone, Copy, Debug, PartialEq, Eq, Structural)]
pub struct PositionFlags {
    pub top: bool,
    pub left: bool,
    pub right: bool,
    pub bottom: bool,
    pub inside: bool,
}

impl PositionFlags {
    /// The empty set: no edge adjacency, not marked inside.
    pub open spec fn spec_none() -> PositionFlags {
        PositionFlags { top: false, left: false, right: false, bottom: false, inside: false }
    }

    /// Builds the flag set from its edge components; `inside` is set exactly
    /// when no edge flag is.
    pub open spec fn spec_edges(top: bool, left: bool, right: bool, bottom: bool) -> PositionFlags {
        PositionFlags {
            top,
            left,
            right,
            bottom,
            inside: !top && !left && !right && !bottom,
        }
    }

    /// Constructs the flag set for an item touching the given edges, marking
    /// it `inside` exactly when it touches none.
    pub fn from_edges(top: bool, left: bool, right: bool, bottom: bool) -> (r: PositionFlags)
        ensures
            r == PositionFlags::spec_edges(top, left, right, bottom),
    {
        PositionFlags {
            top,
            left,
            right,
            bottom,
            inside: !top && !left && !right && !bottom,
        }
    }

    /// True when the frame touches the top edge of the composition.
    pub fn at_top(self) -> (r: bool)
        ensures
            r == self.top,
    {
        self.top
    }

    /// True when the frame touches the right edge of the composition.
    pub fn at_right(self) -> (r: bool)
        ensures
            r == self.right,
    {
        self.right
    }

    /// True when the frame touches the bottom edge of the composition.
    pub fn at_bottom(self) -> (r: bool)
        ensures
            r == self.bottom,
    {
        self.bottom
    }

    /// True when the frame touches the left edge of the composition.
    pub fn at_left(self) -> (r: bool)
        ensures
            r == self.left,
    {
        self.left
    }
}

impl Default for PositionFlags {
    /// A fresh item starts with no adjacency computed.
    fn default() -> (r: PositionFlags)
        ensures
            r == PositionFlags::spec_none(),
    {
        PositionFlags { top: false, left: false, right: false, bottom: false, inside: false }
    }
}

} // verus!
