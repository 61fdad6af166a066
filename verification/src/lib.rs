//! Fake interiors: a flat surface that looks as if rooms lay behind it.
//!
//! The surface is divided into rooms. For each fragment the routine finds
//! the room that the fragment lies in ([`cell`]), picks one of the room
//! designs of a texture atlas by a hash of the room's index ([`hash`],
//! [`atlas`]), follows the view ray through a box behind the surface to the
//! face by which it leaves ([`parallax`]), optionally stops it at a surface
//! stored in a depth map ([`relief`]), and decides whether the room is lit
//! ([`emission`]). [`shader::room_sample`] does all of this and returns the
//! one coordinate at which the host reads base colour, normal and emission
//! from the atlas; [`normal`] brings the normal into the frame of the
//! surface, and [`shader::shade`] puts together the colour of the fragment
//! from what the host has read and lit.
//!
//! Every number is a [`fixed::Fixed`], a signed binary fixed-point value, so
//! that each step is exact integer arithmetic with a stated rounding, and a
//! pure function of its arguments.

pub mod atlas;
pub mod cell;
pub mod emission;
pub mod fixed;
pub mod hash;
pub mod material;
pub mod normal;
pub mod parallax;
pub mod relief;
pub mod shader;

pub use crate::material::{FakeInteriorMaterial, FakeInteriorMaterialUniform};
