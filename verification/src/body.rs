//! Oriented-box rigid bodies.

use vstd::prelude::*;
use crate::scalar::Scalar;
use crate::vector::Vec2;

verus! {

/// The part of a body's state that a step may change.
#[derive(Clone, Copy, Debug, PartialEq, Eq, Structural)]
pub struct Motion {
    pub position: Vec2,
    pub velocity: Vec2,
    pub angle: Scalar,
    pub angular_velocity: Scalar,
}

/// A box with a pose, a velocity and a mass.
///
/// A body whose mass is not finite is static: nothing moves it.
#[derive(Clone, Copy, Debug, PartialEq, Eq, Structural)]
pub struct RigidBody {
    pub position: Vec2,
    pub velocity: Vec2,
    pub angle: Scalar,
    pub angular_velocity: Scalar,
    pub mass: Scalar,
    pub inertia: Scalar,
    pub half_width: Scalar,
    pub half_height: Scalar,
}

impl RigidBody {
    /// A body that no integration, damping, impulse or correction may touch.
    pub open spec fn fixed(self) -> bool {
        !self.mass.finite()
    }

    /// The pose and velocities of the body.
    pub open spec fn kinematics(self) -> Motion {
        Motion {
            position: self.position,
            velocity: self.velocity,
            angle: self.angle,
            angular_velocity: self.angular_velocity,
        }
    }

    /// The body at rest at `position`, unrotated.
    pub open spec fn at_rest(
        position: Vec2,
        half_width: Scalar,
        half_height: Scalar,
        mass: Scalar,
        inertia: Scalar,
    ) -> RigidBody {
        RigidBody {
            position,
            velocity: Vec2::origin(),
            angle: Scalar::encoded(0),
            angular_velocity: Scalar::encoded(0),
            mass,
            inertia,
            half_width,
            half_height,
        }
    }

    /// The body after `motion` was offered to it: a static body stays as it
    /// is, any other takes the new pose and velocities and keeps its mass,
    /// inertia and extents.
    pub open spec fn after(self, motion: Motion) -> RigidBody {
        if self.fixed() {
            self
        } else {
            RigidBody {
                position: motion.position,
                velocity: motion.velocity,
                angle: motion.angle,
                angular_velocity: motion.angular_velocity,
                ..self
            }
        }
    }

    /// Whether a point, given in the body's own frame, lies in the box:
    /// `|x| <= half_width` and `|y| <= half_height`.
    pub open spec fn covers(self, local: Vec2) -> bool {
        &&& local.x.absolute().at_most(self.half_width)
        &&& local.y.absolute().at_most(self.half_height)
    }

    /// The corners of the box in its own frame, in order round the box from
    /// `(-half_width, -half_height)`.
    pub open spec fn corner_offsets(self) -> Seq<Vec2> {
        seq![
            Vec2 { x: self.half_width.negated(), y: self.half_height.negated() },
            Vec2 { x: self.half_width, y: self.half_height.negated() },
            Vec2 { x: self.half_width, y: self.half_height },
            Vec2 { x: self.half_width.negated(), y: self.half_height },
        ]
    }

    pub fn new(
        position: Vec2,
        half_width: Scalar,
        half_height: Scalar,
        mass: Scalar,
        inertia: Scalar,
    ) -> (r: RigidBody)
        ensures
            r == RigidBody::at_rest(position, half_width, half_height, mass, inertia),
    {
        RigidBody {
            position,
            velocity: Vec2::zero(),
            angle: Scalar::zero(),
            angular_velocity: Scalar::zero(),
            mass,
            inertia,
            half_width,
            half_height,
        }
    }

    pub fn is_static(&self) -> (r: bool)
        ensures
            r == self.fixed(),
    {
        !self.mass.is_finite()
    }

    pub fn motion(&self) -> (r: Motion)
        ensures
            r == self.kinematics(),
    {
        Motion {
            position: self.position,
            velocity: self.velocity,
            angle: self.angle,
            angular_velocity: self.angular_velocity,
        }
    }

    pub fn moved(&self, motion: Motion) -> (r: RigidBody)
        ensures
            r == self.after(motion),
    {
        if self.is_static() {
            *self
        } else {
            RigidBody {
                position: motion.position,
                velocity: motion.velocity,
                angle: motion.angle,
                angular_velocity: motion.angular_velocity,
                mass: self.mass,
                inertia: self.inertia,
                half_width: self.half_width,
                half_height: self.half_height,
            }
        }
    }

    pub fn local_corners(&self) -> (r: Vec<Vec2>)
        ensures
            r@ == self.corner_offsets(),
    {
        let mut corners: Vec<Vec2> = Vec::new();
        corners.push(Vec2::new(self.half_width.neg(), self.half_height.neg()));
        corners.push(Vec2::new(self.half_width, self.half_height.neg()));
        corners.push(Vec2::new(self.half_width, self.half_height));
        corners.push(Vec2::new(self.half_width.neg(), self.half_height));
        proof {
            assert(corners@ =~= self.corner_offsets());
        }
        corners
    }

    pub fn contains_point(&self, local: &Vec2) -> (r: bool)
        ensures
            r == self.covers(*local),
    {
        local.x.abs().le(self.half_width) && local.y.abs().le(self.half_height)
    }
}

} // verus!
