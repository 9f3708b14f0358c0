//! Three-component rational vectors for grid and world coordinates.

use vstd::prelude::*;

use crate::rat::{q_small, Q, Rat};

verus! {

/// A 3-component vector of exact rationals. In grid space the components are
/// (column, row, layer); in world space (x, y, depth).
#[derive(Clone, Copy, Debug, PartialEq, Eq, Structural)]
pub struct RVec3 {
    pub x: Rat,
    pub y: Rat,
    pub z: Rat,
}

/// The mathematical values of the three components.
pub ghost struct QV3 {
    pub x: Q,
    pub y: Q,
    pub z: Q,
}

impl RVec3 {
    pub open spec fn q(self) -> QV3 {
        QV3 { x: self.x.q(), y: self.y.q(), z: self.z.q() }
    }

    pub open spec fn valid(self) -> bool {
        self.x.valid() && self.y.valid() && self.z.valid()
    }

    /// All components bounded by `bound` in numerator and denominator.
    pub open spec fn small(self, bound: int) -> bool {
        q_small(self.x.q(), bound) && q_small(self.y.q(), bound) && q_small(self.z.q(), bound)
    }

    pub fn new(x: Rat, y: Rat, z: Rat) -> (r: RVec3)
        ensures
            r.x == x,
            r.y == y,
            r.z == z,
    {
        RVec3 { x, y, z }
    }
}

} // verus!
