//! Two-dimensional integer geometry: pixel locations and the
//! closed-interval point-in-box containment test.

use vstd::prelude::*;

verus! {

/// A pixel position. The origin is the top-left corner of the play
/// area; y grows downward.
#[derive(Copy, Clone, PartialEq, Eq, Structural, Debug)]
pub struct Location {
    pub x: i32,
    pub y: i32,
}

/// `point` lies inside the axis-aligned box with top-left corner
/// `box_tl` and the given extent, both borders included.
pub open spec fn spec_contains(box_tl: Location, width: int, height: int, point: Location) -> bool {
    &&& box_tl.x <= point.x <= box_tl.x + width
    &&& box_tl.y <= point.y <= box_tl.y + height
}

/// Closed-interval containment test of a point against an
/// axis-aligned box.
pub fn contains(box_tl: Location, width: i32, height: i32, point: Location) -> (r: bool)
    requires
        0 <= width,
        0 <= height,
        box_tl.x + width <= i32::MAX,
        box_tl.y + height <= i32::MAX,
    ensures
        r == spec_contains(box_tl, width as int, height as int, point),
{
    point.x >= box_tl.x && point.x <= box_tl.x + width && point.y >= box_tl.y
        && point.y <= box_tl.y + height
}

} // verus!
