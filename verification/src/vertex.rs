//! Vertices of a mesh.

use crate::fixed::Fixed;
use crate::vector::{Vector2, Vector3};
use vstd::prelude::*;

verus! {

/// A vertex: what the mesh gives in object space, and what the transform
/// stage derives from it for the current frame.
#[derive(Clone, Copy, Debug, PartialEq, Eq, Structural)]
pub struct Vertex {
    /// Position in object space.
    pub position: Vector3,
    /// Surface normal in object space.
    pub normal: Vector3,
    pub tex_coords: Vector2,
    pub color: Vector3,
    /// Position on the screen; `z` is the depth.
    pub transformed_position: Vector3,
    /// Surface normal in world space, of unit length.
    pub transformed_normal: Vector3,
}

impl Vertex {
    /// A white vertex at `(x, y, z)` that has not been transformed yet:
    /// its screen position is its position, and it has no normal.
    pub fn new(x: Fixed, y: Fixed, z: Fixed) -> (v: Vertex)
        ensures
            v.position == (Vector3 { x, y, z }),
            v.transformed_position == v.position,
            v.normal == (Vector3 { x: Fixed { raw: 0 }, y: Fixed { raw: 0 }, z: Fixed { raw: 0 } }),
            v.transformed_normal == v.normal,
            v.tex_coords == (Vector2 { x: Fixed { raw: 0 }, y: Fixed { raw: 0 } }),
            v.color == (Vector3 {
                x: Fixed { raw: 65536 },
                y: Fixed { raw: 65536 },
                z: Fixed { raw: 65536 },
            }),
    {
        let o: Fixed = Fixed::zero();
        let i: Fixed = Fixed::one();
        Vertex {
            position: Vector3::new(x, y, z),
            normal: Vector3::new(o, o, o),
            tex_coords: Vector2::new(o, o),
            color: Vector3::new(i, i, i),
            transformed_position: Vector3::new(x, y, z),
            transformed_normal: Vector3::new(o, o, o),
        }
    }
}

} // verus!
