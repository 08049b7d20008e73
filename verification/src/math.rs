//! Integer vectors and rectangles for grid indices and world-space pixels.

use vstd::prelude::*;

verus! {

/// Edge length of one square cell, in pixels.
pub const TILE_SIZE: u32 = 64;

/// A grid index or a grid size, in cells.
#[derive(Clone, Copy, Debug, PartialEq, Eq, Structural)]
pub struct UVec2 {
    pub x: u32,
    pub y: u32,
}

impl UVec2 {
    pub fn new(x: u32, y: u32) -> (v: UVec2)
        ensures
            v == (UVec2 { x, y }),
    {
        UVec2 { x, y }
    }
}

/// A point in world space, in whole pixels.
#[derive(Clone, Copy, Debug, PartialEq, Eq, Structural)]
pub struct IVec2 {
    pub x: i32,
    pub y: i32,
}

impl IVec2 {
    pub fn new(x: i32, y: i32) -> (v: IVec2)
        ensures
            v == (IVec2 { x, y }),
    {
        IVec2 { x, y }
    }
}

/// A pixel extent or a rectangle corner; wide enough for any grid placed at
/// any world point.
#[derive(Clone, Copy, Debug, PartialEq, Eq, Structural)]
pub struct I64Vec2 {
    pub x: i64,
    pub y: i64,
}

impl I64Vec2 {
    pub fn new(x: i64, y: i64) -> (v: I64Vec2)
        ensures
            v == (I64Vec2 { x, y }),
    {
        I64Vec2 { x, y }
    }
}

/// An axis-aligned rectangle in world space. It holds its `min` edges and
/// not its `max` edges, so that rectangles side by side share no point.
#[derive(Clone, Copy, Debug, PartialEq, Eq, Structural)]
pub struct Rect {
    pub min: I64Vec2,
    pub max: I64Vec2,
}

impl Rect {
    /// Whether `point` lies in the rectangle.
    pub open spec fn spec_contains(self, point: IVec2) -> bool {
        &&& self.min.x <= point.x < self.max.x
        &&& self.min.y <= point.y < self.max.y
    }

    /// Whether `point` lies in the rectangle.
    pub fn contains(&self, point: IVec2) -> (b: bool)
        ensures
            b == self.spec_contains(point),
    {
        let x: i64 = point.x as i64;
        let y: i64 = point.y as i64;
        self.min.x <= x && x < self.max.x && self.min.y <= y && y < self.max.y
    }
}

} // verus!
