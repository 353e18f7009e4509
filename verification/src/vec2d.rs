//! A pair of pixel dimensions.

use vstd::prelude::*;

verus! {

/// A width and a height, in pixels or in tiles.
#[derive(Debug, Clone, Copy, PartialEq, Eq, Structural)]
pub struct Vec2d {
    pub x: u32,
    pub y: u32,
}

impl Vec2d {
    /// The size of a square of the given side.
    pub fn square(side: u32) -> (size: Vec2d)
        ensures
            size == (Vec2d { x: side, y: side }),
    {
        Vec2d { x: side, y: side }
    }
}

} // verus!
