//! Isometric tilemap core: exact coordinate math between a logical tile grid
//! and 2D world space, quarter-turn grid rotation, draw-depth (z-order)
//! computation, and the builders that validate tileset and tilemap
//! definitions.
//!
//! World coordinates are exact rationals ([`rat::Rat`]), so every projection
//! and rotation result is stated and proved as exact arithmetic.

use vstd::prelude::*;

pub mod grid;
pub mod math;
pub mod ordering;
pub mod rat;
pub mod rotate;
pub mod spawning;
pub mod text;
pub mod tilemap;
pub mod tilemap_file;
pub mod tileset;
pub mod vec3;

verus! {

/// Multiplier for calculation in case the world should be bigger or smaller.
#[derive(Clone, Copy, Debug)]
pub struct WorldScale(pub crate::rat::Rat);

} // verus!
