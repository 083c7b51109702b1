//! Three-component vectors as stored in the per-agent accumulators.

use vstd::prelude::*;
use crate::scalar::Scalar;

verus! {

/// A vector of three single-precision components, each held as its bit
/// pattern. The simulation is planar: `z` stays zero for positions and
/// velocities.
#[derive(Clone, Copy, Debug, PartialEq, Eq, Structural)]
pub struct Vector {
    pub x: Scalar,
    pub y: Scalar,
    pub z: Scalar,
}

impl Vector {
    /// Whether every component is positive zero, the cleared state.
    pub open spec fn cleared(self) -> bool {
        self.x.bits == 0 && self.y.bits == 0 && self.z.bits == 0
    }

    /// A vector from its components.
    pub fn new(x: Scalar, y: Scalar, z: Scalar) -> (v: Vector)
        ensures
            v.x == x,
            v.y == y,
            v.z == z,
    {
        Vector { x, y, z }
    }

    /// The zero vector, with all components positive zero.
    pub fn zero() -> (v: Vector)
        ensures
            v.cleared(),
    {
        Vector { x: Scalar::zero(), y: Scalar::zero(), z: Scalar::zero() }
    }
}

impl Default for Vector {
    fn default() -> (v: Vector)
        ensures
            v.cleared(),
    {
        Vector::zero()
    }
}

} // verus!
