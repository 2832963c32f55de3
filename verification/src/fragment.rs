//! Fragments: the samples that the rasterizer emits.

use crate::fixed::Fixed;
use crate::vector::Vector3;
use vstd::prelude::*;

verus! {

/// Column and row of a pixel; the origin is the top left corner.
#[derive(Clone, Copy, Debug, PartialEq, Eq, Structural)]
pub struct Pixel {
    pub x: i32,
    pub y: i32,
}

/// One covered pixel of one triangle, before it is shaded and composited.
#[derive(Clone, Copy, Debug, PartialEq, Eq, Structural)]
pub struct Fragment {
    pub screen_position: Pixel,
    /// The point of the triangle that the pixel shows, in object space.
    pub world_position: Vector3,
    /// The lit base color.
    pub color: Vector3,
    pub depth: Fixed,
}

impl Fragment {
    pub fn new(x: i32, y: i32, world_position: Vector3, color: Vector3, depth: Fixed) -> (f:
        Fragment)
        ensures
            f == (Fragment { screen_position: Pixel { x, y }, world_position, color, depth }),
    {
        Fragment { screen_position: Pixel { x, y }, world_position, color, depth }
    }
}

} // verus!
