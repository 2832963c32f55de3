//! The state that one draw call shares among its stages.

use crate::fixed::Fixed;
use crate::matrix::Matrix4;
use vstd::prelude::*;

verus! {

/// The transforms and the clock of one draw call.
#[derive(Clone, Copy, Debug, PartialEq, Eq, Structural)]
pub struct Uniforms {
    pub model_matrix: Matrix4,
    pub view_matrix: Matrix4,
    pub projection_matrix: Matrix4,
    pub viewport_matrix: Matrix4,
    /// Seconds since the animation began.
    pub time: Fixed,
    /// Seconds since the last frame.
    pub dt: Fixed,
}

} // verus!
