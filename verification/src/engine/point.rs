use vstd::prelude::*;

verus! {

/// A position in pixels, relative to the space of the enclosing container.
#[derive(Clone, Copy, Debug, PartialEq, Eq, Structural)]
pub struct Point {
    pub x: i32,
    pub y: i32,
}

/// An extent in pixels.
#[derive(Clone, Copy, Debug, PartialEq, Eq, Structural)]
pub struct Size {
    pub w: i32,
    pub h: i32,
}

/// Whether the rectangle that starts at `origin` and extends over `size` holds the position
/// `(x, y)`. The left and top edges belong to the rectangle, the right and bottom edges do not.
pub open spec fn bounds_contain(origin: Point, size: Size, x: int, y: int) -> bool {
    &&& origin.x <= x < origin.x + size.w
    &&& origin.y <= y < origin.y + size.h
}

/// Tests whether a rectangle holds a position.
pub fn point_in_bounds(origin: Point, size: Size, x: i64, y: i64) -> (inside: bool)
    ensures
        inside == bounds_contain(origin, size, x as int, y as int),
{
    let left: i64 = origin.x as i64;
    let top: i64 = origin.y as i64;
    let right: i64 = left + size.w as i64;
    let bottom: i64 = top + size.h as i64;
    left <= x && x < right && top <= y && y < bottom
}

} // verus!
