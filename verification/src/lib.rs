//! A software rendering pipeline in exact fixed-point arithmetic.
//!
//! A draw call takes the vertices of a mesh from object space to the
//! screen ([`shaders`]), groups them into triangles and rasterizes those
//! into fragments ([`triangle`], with the weights of [`barycentric`]), and
//! composites the fragments into a framebuffer that keeps, for every
//! pixel, the nearest of them ([`framebuffer`], [`writes`]). The module
//! [`render`] joins the stages; [`matrix`] builds the transforms that they
//! use, and [`rotation`] says when the model matrix turns without
//! distorting.
//!
//! Every number is a [`fixed::Fixed`], a signed value with sixteen
//! fractional bits whose arithmetic saturates instead of overflowing. No
//! function of this crate panics or fails, and each has a contract over
//! plain integers: what is a tolerance where numbers float is an equation
//! here.

pub mod barycentric;
pub mod collision;
pub mod fixed;
pub mod fragment;
pub mod framebuffer;
pub mod light;
pub mod line;
pub mod matrix;
pub mod render;
pub mod rotation;
pub mod shaders;
pub mod triangle;
pub mod uniforms;
pub mod vector;
pub mod vertex;
pub mod writes;
