//! Plain geometric value types over fixed-point world coordinates.

use vstd::prelude::*;

verus! {

/// A 2D point or vector in fixed-point world coordinates.
#[derive(Clone, Copy, PartialEq, Eq, Structural, Debug)]
pub struct Vec2 {
    pub x: i64,
    pub y: i64,
}

impl Vec2 {
    /// The zero vector.
    pub fn zero() -> (r: Vec2)
        ensures
            r.x == 0 && r.y == 0,
    {
        Vec2 { x: 0, y: 0 }
    }
}

/// A pair of integer tile indices; also used for a grid origin.
#[derive(Clone, Copy, PartialEq, Eq, Structural, Debug)]
pub struct TilePoint {
    pub x: i32,
    pub y: i32,
}

/// An axis-aligned rectangle in world coordinates: `x`, `y` is the center,
/// `w`, `h` the full extent along each axis.
#[derive(Clone, Copy, PartialEq, Eq, Structural, Debug)]
pub struct Rect {
    pub x: i64,
    pub y: i64,
    pub w: i64,
    pub h: i64,
}

impl Rect {
    pub fn new(x: i64, y: i64, w: i64, h: i64) -> (r: Rect)
        ensures
            r == (Rect { x, y, w, h }),
    {
        Rect { x, y, w, h }
    }

    /// The center of the rectangle.
    pub fn point(&self) -> (r: Vec2)
        ensures
            r.x == self.x && r.y == self.y,
    {
        Vec2 { x: self.x, y: self.y }
    }
}

} // verus!
