//! The light of a scene.

use crate::vector::Vector3;
use vstd::prelude::*;

verus! {

/// A light; the direction from the origin to `position` is the direction
/// that every surface is lit from.
#[derive(Clone, Copy, Debug, PartialEq, Eq, Structural)]
pub struct Light {
    pub position: Vector3,
}

impl Light {
    pub fn new(position: Vector3) -> (l: Light)
        ensures
            l.position == position,
    {
        Light { position }
    }
}

} // verus!
