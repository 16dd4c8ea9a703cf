//! Integer grid-cell coordinates and the rectangle hit test used by widgets.

use vstd::prelude::*;

verus! {

/// A grid-cell coordinate: column `x`, row `y`.
#[derive(Clone, Copy, Debug, PartialEq, Eq, Structural)]
pub struct GridPoint {
    pub x: i32,
    pub y: i32,
}

/// The rectangle with bottom-left corner `(bx, by)` and the given size
/// contains `(px, py)`: every cell from the corner up to, and excluding,
/// `corner + size` on each axis.
pub open spec fn rect_contains(
    bx: int,
    by: int,
    width: int,
    height: int,
    px: int,
    py: int,
) -> bool {
    &&& bx <= px < bx + width
    &&& by <= py < by + height
}

/// Hit test: does `p` lie in the rectangle with bottom-left corner `bl`
/// and size `width` by `height` cells?
pub fn rect_contains_point(bl: GridPoint, width: usize, height: usize, p: GridPoint) -> (r: bool)
    requires
        width <= i32::MAX,
        height <= i32::MAX,
    ensures
        r == rect_contains(bl.x as int, bl.y as int, width as int, height as int, p.x as int, p.y as int),
{
    let bx = bl.x as i64;
    let by = bl.y as i64;
    let px = p.x as i64;
    let py = p.y as i64;
    bx <= px && px < bx + width as i64 && by <= py && py < by + height as i64
}

} // verus!
