//! The decisions of the solver: which sides of a link or a contact take an
//! impulse, when an interaction is passed over, and where the walls stand.

use vstd::arithmetic::power2::{lemma2_to64, lemma2_to64_rest};
use vstd::prelude::*;
use crate::constraint::{Anchor, CollisionContact, DistanceConstraint};
use crate::engine::{Bounds, ConstraintPhysicsEngine, EngineState, STANDARD_GRAVITY_BITS};
use crate::scalar::{lemma_fields, Scalar, HALF_BITS};
use crate::vector::Vec2;

verus! {

/// The encoding of 1.
pub const ONE_BITS: u64 = 0x3FF0_0000_0000_0000;

/// The encoding of -1.
pub const MINUS_ONE_BITS: u64 = 0xBFF0_0000_0000_0000;

/// The encoding of 0.8, the restitution of a contact between two boxes.
pub const CONTACT_RESTITUTION_BITS: u64 = 0x3FE9_9999_9999_999A;

/// The encoding of 0.7, the restitution of a contact with a wall.
pub const WALL_RESTITUTION_BITS: u64 = 0x3FE6_6666_6666_6666;

/// The encoding of 0.2, the share of a penetration that one correction
/// takes back.
pub const CORRECTION_PERCENT_BITS: u64 = 0x3FC9_9999_9999_999A;

/// The encoding of 0.01, the penetration that a contact between two boxes
/// leaves uncorrected. A contact with a wall leaves none.
pub const CONTACT_SLOP_BITS: u64 = 0x3F84_7AE1_47AE_147B;

/// The encoding of 0.99, the factor by which every step damps velocities.
pub const DAMPING_BITS: u64 = 0x3FEF_AE14_7AE1_47AE;

/// The encoding of 1000, the number of time units of a step in a second.
pub const STEPS_PER_SECOND_BITS: u64 = 0x408F_4000_0000_0000;

/// The bodies that an interaction moves, one for each of its two sides. A
/// side without a body adds nothing to the effective mass and takes no
/// impulse and no correction.
#[derive(Clone, Copy, Debug, PartialEq, Eq, Structural)]
pub struct Sides {
    pub a: Option<usize>,
    pub b: Option<usize>,
}

impl EngineState {
    /// The body that an impulse at `anchor` moves: the body the anchor sits
    /// on, unless that body is static.
    pub open spec fn movable(self, anchor: Anchor) -> Option<usize>
        recommends
            anchor.within(self.bodies.len()),
    {
        match anchor.carrier() {
            Some(i) => if self.bodies[i as int].fixed() {
                None
            } else {
                Some(i)
            },
            None => None,
        }
    }

    /// Body `i`, unless it is static.
    pub open spec fn dynamic(self, i: usize) -> Option<usize>
        recommends
            i < self.bodies.len(),
    {
        if self.bodies[i as int].fixed() {
            None
        } else {
            Some(i)
        }
    }

    /// The sides on which a link whose anchors are `length` apart is solved.
    /// A link of length zero has no direction and is passed over, and so is
    /// one that could move neither end.
    pub open spec fn link_plan(self, link: DistanceConstraint, length: Scalar) -> Option<Sides>
        recommends
            link.within(self.bodies.len()),
    {
        let a = self.movable(link.anchor_a);
        let b = self.movable(link.anchor_b);
        if length.same(Scalar::encoded(0)) || (a is None && b is None) {
            None
        } else {
            Some(Sides { a, b })
        }
    }

    /// The sides on which a contact is resolved, given the speed at which
    /// the second body leaves the first along the normal. A contact between
    /// two static bodies is passed over, and so is one whose bodies part or
    /// rest along the normal: one whose speed is zero or more. A speed that
    /// is no number passes no contact over.
    pub open spec fn contact_plan(self, body_a: usize, body_b: usize, parting: Scalar) -> Option<
        Sides,
    >
        recommends
            body_a < self.bodies.len(),
            body_b < self.bodies.len(),
    {
        let a = self.dynamic(body_a);
        let b = self.dynamic(body_b);
        if (a is None && b is None) || Scalar::encoded(0).at_most(parting) {
            None
        } else {
            Some(Sides { a, b })
        }
    }
}

/// Whether bodies with this speed along the normal part or rest, so that
/// the contact needs neither impulse nor correction: whether the speed is
/// zero, of either sign, or more.
pub fn separating(velocity_along_normal: Scalar) -> (r: bool)
    ensures
        r == Scalar::encoded(0).at_most(velocity_along_normal),
{
    Scalar::zero().le(velocity_along_normal)
}

impl ConstraintPhysicsEngine {
    /// The body that an impulse at `anchor` moves.
    pub fn movable_body(&self, anchor: &Anchor) -> (r: Option<usize>)
        requires
            anchor.within(self@.bodies.len()),
        ensures
            r == self@.movable(*anchor),
    {
        match anchor.body() {
            Some(i) => if self.body(i).is_static() {
                None
            } else {
                Some(i)
            },
            None => None,
        }
    }

    /// Decides how a link is solved, once the distance of its anchors is
    /// known.
    pub fn link_sides(&self, link: &DistanceConstraint, length: Scalar) -> (r: Option<Sides>)
        requires
            link.within(self@.bodies.len()),
        ensures
            r == self@.link_plan(*link, length),
    {
        if length.equals(Scalar::zero()) {
            return None;
        }
        let a = self.movable_body(&link.anchor_a);
        let b = self.movable_body(&link.anchor_b);
        if a.is_none() && b.is_none() {
            None
        } else {
            Some(Sides { a, b })
        }
    }

    /// Decides how a contact is resolved, once the speed of its bodies along
    /// the normal is known.
    pub fn contact_sides(&self, contact: &CollisionContact, velocity_along_normal: Scalar) -> (r:
        Option<Sides>)
        requires
            contact.body_a < self@.bodies.len(),
            contact.body_b < self@.bodies.len(),
        ensures
            r == self@.contact_plan(contact.body_a, contact.body_b, velocity_along_normal),
    {
        let a_static = self.body(contact.body_a).is_static();
        let b_static = self.body(contact.body_b).is_static();
        if a_static && b_static {
            return None;
        }
        if separating(velocity_along_normal) {
            return None;
        }
        Some(
            Sides {
                a: if a_static {
                    None
                } else {
                    Some(contact.body_a)
                },
                b: if b_static {
                    None
                } else {
                    Some(contact.body_b)
                },
            },
        )
    }
}

/// One of the four walls of the world.
#[derive(Clone, Copy, Debug, PartialEq, Eq, Structural)]
pub enum Wall {
    /// The wall at `x = 0`.
    Left,
    /// The wall at `x = width`.
    Right,
    /// The wall at `y = 0`.
    Top,
    /// The wall at `y = height`.
    Bottom,
}

impl Wall {
    /// Whether the edge of a box, at coordinate `edge` on the wall's axis,
    /// lies beyond the wall.
    pub open spec fn passed(self, edge: Scalar, bounds: Bounds) -> bool {
        match self {
            Wall::Left => edge.less(Scalar::encoded(0)),
            Wall::Right => bounds.width.less(edge),
            Wall::Top => edge.less(Scalar::encoded(0)),
            Wall::Bottom => bounds.height.less(edge),
        }
    }

    /// The unit normal of the wall, pointing into the world.
    pub open spec fn inward(self) -> Vec2 {
        match self {
            Wall::Left => Vec2 { x: Scalar::encoded(ONE_BITS), y: Scalar::encoded(0) },
            Wall::Right => Vec2 { x: Scalar::encoded(MINUS_ONE_BITS), y: Scalar::encoded(0) },
            Wall::Top => Vec2 { x: Scalar::encoded(0), y: Scalar::encoded(ONE_BITS) },
            Wall::Bottom => Vec2 { x: Scalar::encoded(0), y: Scalar::encoded(MINUS_ONE_BITS) },
        }
    }

    /// The midpoint of the box edge that faces the wall, in the frame of a
    /// box with the given half extents.
    pub open spec fn facing(self, half_width: Scalar, half_height: Scalar) -> Vec2 {
        match self {
            Wall::Left => Vec2 { x: half_width.negated(), y: Scalar::encoded(0) },
            Wall::Right => Vec2 { x: half_width, y: Scalar::encoded(0) },
            Wall::Top => Vec2 { x: Scalar::encoded(0), y: half_height.negated() },
            Wall::Bottom => Vec2 { x: Scalar::encoded(0), y: half_height },
        }
    }

    pub fn crossed(&self, edge: Scalar, bounds: &Bounds) -> (r: bool)
        ensures
            r == self.passed(edge, *bounds),
    {
        match self {
            Wall::Left => edge.lt(Scalar::zero()),
            Wall::Right => edge.gt(bounds.width),
            Wall::Top => edge.lt(Scalar::zero()),
            Wall::Bottom => edge.gt(bounds.height),
        }
    }

    pub fn normal(&self) -> (r: Vec2)
        ensures
            r == self.inward(),
    {
        let zero = Scalar::zero();
        match self {
            Wall::Left => Vec2::new(Scalar::from_bits(ONE_BITS), zero),
            Wall::Right => Vec2::new(Scalar::from_bits(MINUS_ONE_BITS), zero),
            Wall::Top => Vec2::new(zero, Scalar::from_bits(ONE_BITS)),
            Wall::Bottom => Vec2::new(zero, Scalar::from_bits(MINUS_ONE_BITS)),
        }
    }

    pub fn edge_midpoint(&self, half_width: Scalar, half_height: Scalar) -> (r: Vec2)
        ensures
            r == self.facing(half_width, half_height),
    {
        let zero = Scalar::zero();
        match self {
            Wall::Left => Vec2::new(half_width.neg(), zero),
            Wall::Right => Vec2::new(half_width, zero),
            Wall::Top => Vec2::new(zero, half_height.neg()),
            Wall::Bottom => Vec2::new(zero, half_height),
        }
    }
}

/// An interaction never moves a static body: the sides that a link or a
/// contact is solved on name bodies that are not static, and an interaction
/// between anchors or bodies that are all static is passed over.
pub proof fn lemma_sides_are_dynamic(
    state: EngineState,
    link: DistanceConstraint,
    length: Scalar,
    body_a: usize,
    body_b: usize,
    parting: Scalar,
)
    requires
        link.within(state.bodies.len()),
        body_a < state.bodies.len(),
        body_b < state.bodies.len(),
    ensures
        state.link_plan(link, length) matches Some(sides) ==> {
            &&& sides.a matches Some(i) ==> i < state.bodies.len() && !state.bodies[i as int].fixed()
            &&& sides.b matches Some(i) ==> i < state.bodies.len() && !state.bodies[i as int].fixed()
            &&& sides.a is Some || sides.b is Some
        },
        state.contact_plan(body_a, body_b, parting) matches Some(sides) ==> {
            &&& sides.a matches Some(i) ==> i == body_a && !state.bodies[i as int].fixed()
            &&& sides.b matches Some(i) ==> i == body_b && !state.bodies[i as int].fixed()
            &&& sides.a is Some || sides.b is Some
        },
        state.bodies[body_a as int].fixed() && state.bodies[body_b as int].fixed()
            ==> state.contact_plan(body_a, body_b, parting) is None,
{
}

/// A contact is resolved only between bodies that close in on each other:
/// where the speed along the normal is a number and not negative, the
/// bodies part or rest and the contact is passed over, whatever the bodies.
pub proof fn lemma_resting_contact_is_passed_over(
    state: EngineState,
    body_a: usize,
    body_b: usize,
    parting: Scalar,
)
    requires
        !parting.nan(),
        parting.rank() >= 0,
    ensures
        state.contact_plan(body_a, body_b, parting) is None,
{
}

/// The named numbers are what their names say: one, minus one, one half
/// and a thousand exactly, and of 9.81, 0.8, 0.7, 0.2, 0.01 and 0.99 the
/// double-precision numbers that lie within half a unit of the last place.
pub proof fn lemma_named_numbers()
    ensures
        Scalar::encoded(ONE_BITS).exactly(1, 1),
        Scalar::encoded(MINUS_ONE_BITS).exactly(-1, 1),
        Scalar::encoded(HALF_BITS).exactly(1, 2),
        Scalar::encoded(STEPS_PER_SECOND_BITS).exactly(1000, 1),
        Scalar::encoded(STANDARD_GRAVITY_BITS).rounds(981, 100),
        Scalar::encoded(CONTACT_RESTITUTION_BITS).rounds(8, 10),
        Scalar::encoded(WALL_RESTITUTION_BITS).rounds(7, 10),
        Scalar::encoded(CORRECTION_PERCENT_BITS).rounds(2, 10),
        Scalar::encoded(CONTACT_SLOP_BITS).rounds(1, 100),
        Scalar::encoded(DAMPING_BITS).rounds(99, 100),
{
    lemma2_to64();
    lemma2_to64_rest();
    assert(Scalar::encoded(ONE_BITS).exactly(1, 1)) by {
        let x = Scalar::encoded(ONE_BITS);
        lemma_fields(x, 1023, 0x0);
        assert(x.significand() == 0x10_0000_0000_0000);
        assert(x.units_in_two() == 0x20_0000_0000_0000);
    }
    assert(Scalar::encoded(MINUS_ONE_BITS).exactly(-1, 1)) by {
        let x = Scalar::encoded(MINUS_ONE_BITS);
        lemma_fields(x, 1023, 0x0);
        assert(x.significand() == -0x10_0000_0000_0000);
        assert(x.units_in_two() == 0x20_0000_0000_0000);
    }
    assert(Scalar::encoded(HALF_BITS).exactly(1, 2)) by {
        let x = Scalar::encoded(HALF_BITS);
        lemma_fields(x, 1022, 0x0);
        assert(x.significand() == 0x10_0000_0000_0000);
        assert(x.units_in_two() == 0x40_0000_0000_0000);
    }
    assert(Scalar::encoded(STEPS_PER_SECOND_BITS).exactly(1000, 1)) by {
        let x = Scalar::encoded(STEPS_PER_SECOND_BITS);
        lemma_fields(x, 1032, 0xF_4000_0000_0000);
        assert(x.significand() == 0x1F_4000_0000_0000);
        assert(x.units_in_two() == 0x1000_0000_0000);
    }
    assert(Scalar::encoded(STANDARD_GRAVITY_BITS).rounds(981, 100)) by {
        let x = Scalar::encoded(STANDARD_GRAVITY_BITS);
        lemma_fields(x, 1026, 0x3_9EB8_51EB_851F);
        assert(x.significand() == 0x13_9EB8_51EB_851F);
        assert(x.units_in_two() == 0x4_0000_0000_0000);
    }
    assert(Scalar::encoded(CONTACT_RESTITUTION_BITS).rounds(8, 10)) by {
        let x = Scalar::encoded(CONTACT_RESTITUTION_BITS);
        lemma_fields(x, 1022, 0x9_9999_9999_999A);
        assert(x.significand() == 0x19_9999_9999_999A);
        assert(x.units_in_two() == 0x40_0000_0000_0000);
    }
    assert(Scalar::encoded(WALL_RESTITUTION_BITS).rounds(7, 10)) by {
        let x = Scalar::encoded(WALL_RESTITUTION_BITS);
        lemma_fields(x, 1022, 0x6_6666_6666_6666);
        assert(x.significand() == 0x16_6666_6666_6666);
        assert(x.units_in_two() == 0x40_0000_0000_0000);
    }
    assert(Scalar::encoded(CORRECTION_PERCENT_BITS).rounds(2, 10)) by {
        let x = Scalar::encoded(CORRECTION_PERCENT_BITS);
        lemma_fields(x, 1020, 0x9_9999_9999_999A);
        assert(x.significand() == 0x19_9999_9999_999A);
        assert(x.units_in_two() == 0x100_0000_0000_0000);
    }
    assert(Scalar::encoded(CONTACT_SLOP_BITS).rounds(1, 100)) by {
        let x = Scalar::encoded(CONTACT_SLOP_BITS);
        lemma_fields(x, 1016, 0x4_7AE1_47AE_147B);
        assert(x.significand() == 0x14_7AE1_47AE_147B);
        assert(x.units_in_two() == 0x1000_0000_0000_0000);
    }
    assert(Scalar::encoded(DAMPING_BITS).rounds(99, 100)) by {
        let x = Scalar::encoded(DAMPING_BITS);
        lemma_fields(x, 1022, 0xF_AE14_7AE1_47AE);
        assert(x.significand() == 0x1F_AE14_7AE1_47AE);
        assert(x.units_in_two() == 0x40_0000_0000_0000);
    }
}

} // verus!
