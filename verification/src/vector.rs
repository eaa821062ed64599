//! Points and directions in the plane.

use vstd::prelude::*;
use crate::scalar::Scalar;

verus! {

/// A pair of coordinates.
#[derive(Clone, Copy, Debug, PartialEq, Eq, Structural)]
pub struct Vec2 {
    pub x: Scalar,
    pub y: Scalar,
}

impl Vec2 {
    /// The zero vector.
    pub open spec fn origin() -> Vec2 {
        Vec2 { x: Scalar::encoded(0), y: Scalar::encoded(0) }
    }

    /// The vector turned by a quarter turn: `(-y, x)`.
    pub open spec fn turned(self) -> Vec2 {
        Vec2 { x: self.y.negated(), y: self.x }
    }

    /// The vector pointing the other way: `(-x, -y)`.
    pub open spec fn reversed(self) -> Vec2 {
        Vec2 { x: self.x.negated(), y: self.y.negated() }
    }

    pub fn new(x: Scalar, y: Scalar) -> (r: Vec2)
        ensures
            r == (Vec2 { x, y }),
    {
        Vec2 { x, y }
    }

    /// The origin.
    pub fn zero() -> (r: Vec2)
        ensures
            r == Vec2::origin(),
    {
        Vec2 { x: Scalar::zero(), y: Scalar::zero() }
    }

    pub fn perpendicular(&self) -> (r: Vec2)
        ensures
            r == self.turned(),
    {
        Vec2 { x: self.y.neg(), y: self.x }
    }

    pub fn reverse(&self) -> (r: Vec2)
        ensures
            r == self.reversed(),
    {
        Vec2 { x: self.x.neg(), y: self.y.neg() }
    }
}

} // verus!
