//! Attachment points, links between them, and contacts between boxes.

use vstd::prelude::*;
use crate::scalar::Scalar;
use crate::vector::Vec2;

verus! {

/// Where one end of a link is attached.
#[derive(Clone, Copy, Debug, PartialEq, Eq, Structural)]
pub enum Anchor {
    /// A point of the world.
    Fixed(Vec2),
    /// The centre of a body.
    BodyIndex(usize),
    /// A point given in a body's own frame.
    BodyPoint { body: usize, local_point: Vec2 },
}

impl Anchor {
    /// The body the anchor sits on, if it sits on one.
    pub open spec fn carrier(self) -> Option<usize> {
        match self {
            Anchor::Fixed(_) => None,
            Anchor::BodyIndex(i) => Some(i),
            Anchor::BodyPoint { body, .. } => Some(body),
        }
    }

    /// Whether the anchor names no body beyond the first `count`.
    pub open spec fn within(self, count: nat) -> bool {
        self.carrier() matches Some(i) ==> i < count
    }

    pub fn body(&self) -> (r: Option<usize>)
        ensures
            r == self.carrier(),
    {
        match self {
            Anchor::Fixed(_) => None,
            Anchor::BodyIndex(i) => Some(*i),
            Anchor::BodyPoint { body, .. } => Some(*body),
        }
    }
}

/// A soft link that pulls two anchors towards a rest distance.
#[derive(Clone, Copy, Debug, PartialEq, Eq, Structural)]
pub struct DistanceConstraint {
    pub anchor_a: Anchor,
    pub anchor_b: Anchor,
    pub rest_length: Scalar,
    pub stiffness: Scalar,
}

impl DistanceConstraint {
    /// Whether both anchors name bodies among the first `count`.
    pub open spec fn within(self, count: nat) -> bool {
        self.anchor_a.within(count) && self.anchor_b.within(count)
    }
}

/// Two boxes found overlapping: where, along which unit normal (from the
/// first body towards the second) and how deep.
#[derive(Clone, Copy, Debug, PartialEq, Eq, Structural)]
pub struct CollisionContact {
    pub body_a: usize,
    pub body_b: usize,
    pub contact_point: Vec2,
    pub normal: Vec2,
    pub penetration: Scalar,
}

} // verus!
