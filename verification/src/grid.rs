//! Grid positions on a fixed-size square lattice, and their quarter-turn
//! rotation within a grid of `n` cells per side.

use vstd::prelude::*;

use crate::rat::{q_int, Rat};
use crate::vec3::RVec3;

verus! {

/// Identifies a position in the grid: column `x`, row `y`, and layer.
/// `x` and `y` are within `[0, n)` for the grid of side `n` they belong to;
/// the side is a property of the containing grid and is passed to the
/// rotation operations by the caller.
#[derive(Default, Clone, PartialEq, Eq, Structural, Copy, Debug)]
pub struct GridPosition {
    pub x: usize,
    pub y: usize,
    pub layer: usize,
}

/// The size of a single tile in the tilemap, in world units.
#[derive(Clone, Copy, Debug)]
pub struct TileSize {
    pub width: Rat,
    pub height: Rat,
}

/// Offset of an object from the center of its cell, in world units.
#[derive(Clone, Copy, Debug)]
pub struct GridOffset {
    pub x: Rat,
    pub y: Rat,
}

/// Clockwise quarter turn of `p` within a square grid of side `n`.
pub open spec fn spec_rotate_c(p: GridPosition, n: usize) -> GridPosition
    recommends
        p.x < n,
{
    GridPosition { x: p.y, y: (n - p.x - 1) as usize, layer: p.layer }
}

/// Counter-clockwise quarter turn of `p` within a square grid of side `n`.
pub open spec fn spec_rotate_cc(p: GridPosition, n: usize) -> GridPosition
    recommends
        p.y < n,
{
    GridPosition { x: (n - p.y - 1) as usize, y: p.x, layer: p.layer }
}

impl GridPosition {
    pub fn new(x: usize, y: usize, layer: usize) -> (r: Self)
        ensures
            r == (GridPosition { x, y, layer }),
    {
        Self { x, y, layer }
    }

    /// Rotates the grid position clockwise within a grid of side `n`.
    /// The layer is never altered by rotation.
    pub fn rotate_c(self, n: usize) -> (r: Self)
        requires
            self.x < n,
        ensures
            r == spec_rotate_c(self, n),
            r.y < n,
            r.layer == self.layer,
    {
        Self { x: self.y, y: n - self.x - 1, layer: self.layer }
    }

    /// Rotates the grid position counter-clockwise within a grid of side `n`.
    /// The layer is never altered by rotation.
    pub fn rotate_cc(self, n: usize) -> (r: Self)
        requires
            self.y < n,
        ensures
            r == spec_rotate_cc(self, n),
            r.x < n,
            r.layer == self.layer,
    {
        Self { x: n - self.y - 1, y: self.x, layer: self.layer }
    }

    /// This position as a rational grid-space vector (column, row, layer).
    pub fn to_rvec3(self) -> (r: RVec3)
        ensures
            r.valid(),
            r.q().x == q_int(self.x as int),
            r.q().y == q_int(self.y as int),
            r.q().z == q_int(self.layer as int),
    {
        RVec3 {
            x: Rat::from_int(self.x as i128),
            y: Rat::from_int(self.y as i128),
            z: Rat::from_int(self.layer as i128),
        }
    }
}

/// Four successive clockwise quarter turns return the original position,
/// for every grid side `n` and every position inside the grid.
pub proof fn lemma_rotate_c_four(p: GridPosition, n: usize)
    requires
        p.x < n,
        p.y < n,
    ensures
        spec_rotate_c(spec_rotate_c(spec_rotate_c(spec_rotate_c(p, n), n), n), n) == p,
{
}

/// Four successive counter-clockwise quarter turns return the original
/// position, for every grid side `n` and every position inside the grid.
pub proof fn lemma_rotate_cc_four(p: GridPosition, n: usize)
    requires
        p.x < n,
        p.y < n,
    ensures
        spec_rotate_cc(spec_rotate_cc(spec_rotate_cc(spec_rotate_cc(p, n), n), n), n) == p,
{
}

/// A clockwise quarter turn undoes a counter-clockwise one, and conversely,
/// for every grid side `n` and every position inside the grid.
pub proof fn lemma_rotate_c_cc_inverse(p: GridPosition, n: usize)
    requires
        p.x < n,
        p.y < n,
    ensures
        spec_rotate_c(spec_rotate_cc(p, n), n) == p,
        spec_rotate_cc(spec_rotate_c(p, n), n) == p,
{
}

impl TileSize {
    pub fn new(width: Rat, height: Rat) -> (r: Self)
        ensures
            r.width == width,
            r.height == height,
    {
        Self { width, height }
    }

    pub fn height(&self) -> (r: Rat)
        ensures
            r == self.height,
    {
        self.height
    }

    pub fn width(&self) -> (r: Rat)
        ensures
            r == self.width,
    {
        self.width
    }
}

} // verus!
