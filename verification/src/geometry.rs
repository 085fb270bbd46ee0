//! Integer grid coordinates.

use vstd::prelude::*;

verus! {

/// A pair of unsigned grid coordinates, or the width and height of a grid.
#[derive(Clone, Copy, Debug, PartialEq, Eq, Structural)]
pub struct UVec2 {
    pub x: u32,
    pub y: u32,
}

impl UVec2 {
    /// The pair `(x, y)`.
    pub fn new(x: u32, y: u32) -> (v: UVec2)
        ensures
            v.x == x,
            v.y == y,
    {
        Self { x, y }
    }
}

} // verus!
