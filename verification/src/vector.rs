use crate::scalar::{Scalar, ONE_BITS, ZERO_BITS};
use vstd::prelude::*;

verus! {

/// The pattern of the bound below which a component counts as zero: a
/// hundred-millionth.
pub const EPSILON_BITS: u64 = 0x3e45_798e_e230_8c3a;

/// Three numbers: a point, a direction or a colour, as the caller computed
/// it.
#[derive(Clone, Copy, Debug, PartialEq, Eq, Structural)]
pub struct Vector3 {
    pub x: Scalar,
    pub y: Scalar,
    pub z: Scalar,
}

/// A colour: the shares of red, green and blue.
pub type Color3 = Vector3;

/// A place in space.
pub type Point3 = Vector3;

/// Black: no light at all.
pub open spec fn black() -> Color3 {
    Vector3 {
        x: Scalar { bits: ZERO_BITS },
        y: Scalar { bits: ZERO_BITS },
        z: Scalar { bits: ZERO_BITS },
    }
}

/// White: all the light there is.
pub open spec fn white() -> Color3 {
    Vector3 {
        x: Scalar { bits: ONE_BITS },
        y: Scalar { bits: ONE_BITS },
        z: Scalar { bits: ONE_BITS },
    }
}

impl Vector3 {
    /// Every component is closer to zero than the bound.
    pub open spec fn negligible(self) -> bool {
        let bound = Scalar { bits: EPSILON_BITS };
        self.x.positive().below(bound) && self.y.positive().below(bound)
            && self.z.positive().below(bound)
    }

    /// The vector that points the other way.
    pub open spec fn opposite(self) -> Vector3 {
        Vector3 { x: self.x.opposite(), y: self.y.opposite(), z: self.z.opposite() }
    }

    pub fn new(x: Scalar, y: Scalar, z: Scalar) -> (v: Vector3)
        ensures
            v == (Vector3 { x, y, z }),
    {
        Vector3 { x, y, z }
    }

    pub fn x(&self) -> (x: Scalar)
        ensures
            x == self.x,
    {
        self.x
    }

    pub fn y(&self) -> (y: Scalar)
        ensures
            y == self.y,
    {
        self.y
    }

    pub fn z(&self) -> (z: Scalar)
        ensures
            z == self.z,
    {
        self.z
    }

    /// The vector that points the other way.
    pub fn neg(&self) -> (v: Vector3)
        ensures
            v == self.opposite(),
    {
        Vector3 { x: self.x.neg(), y: self.y.neg(), z: self.z.neg() }
    }

    /// Whether every component is closer to zero than a hundred-millionth, so
    /// that the vector gives no direction worth following.
    pub fn near_zero(&self) -> (yes: bool)
        ensures
            yes == self.negligible(),
    {
        let bound = Scalar { bits: EPSILON_BITS };
        self.x.abs().less(bound) && self.y.abs().less(bound) && self.z.abs().less(bound)
    }
}

} // verus!
