//! The engine: body registry, link list, drag state and settings.

use vstd::prelude::*;
use crate::body::{Motion, RigidBody};
use crate::constraint::{Anchor, DistanceConstraint};
use crate::scalar::{Scalar, HALF_BITS, INFINITY_BITS};
use crate::vector::Vec2;

verus! {

/// The encoding of 9.81, the downward pull of a new engine.
pub const STANDARD_GRAVITY_BITS: u64 = 0x4023_9EB8_51EB_851F;

/// The number of solver rounds per step of a new engine.
pub const DEFAULT_ITERATIONS: usize = 5;

/// The extent of the walled world: walls stand at `x = 0`, `x = width`,
/// `y = 0` and `y = height`.
#[derive(Clone, Copy, Debug, PartialEq, Eq, Structural)]
pub struct Bounds {
    pub width: Scalar,
    pub height: Scalar,
}

/// What an engine holds.
pub struct EngineState {
    /// The bodies, each known to callers by its index.
    pub bodies: Seq<RigidBody>,
    /// The links, in the order in which a solver round takes them.
    pub constraints: Seq<DistanceConstraint>,
    pub gravity: Vec2,
    pub iterations: usize,
    /// The index of the link that follows the pointer, while a drag lasts.
    pub drag: Option<usize>,
    /// The walls, once they have been set.
    pub bounds: Option<Bounds>,
}

impl EngineState {
    /// Every link names bodies of the registry, and the drag marker names a
    /// link of the list.
    pub open spec fn wf(self) -> bool {
        &&& forall|k: int|
            0 <= k < self.constraints.len() ==> (#[trigger] self.constraints[k]).within(
                self.bodies.len(),
            )
        &&& self.drag matches Some(d) ==> d < self.constraints.len()
    }

    /// The state of a new engine.
    pub open spec fn initial() -> EngineState {
        EngineState {
            bodies: Seq::empty(),
            constraints: Seq::empty(),
            gravity: Vec2 {
                x: Scalar::encoded(0),
                y: Scalar::encoded(STANDARD_GRAVITY_BITS),
            },
            iterations: DEFAULT_ITERATIONS,
            drag: None,
            bounds: None,
        }
    }

    /// The state with one more body.
    pub open spec fn with_body(self, body: RigidBody) -> EngineState {
        EngineState { bodies: self.bodies.push(body), ..self }
    }

    /// The state with one more link.
    pub open spec fn with_link(self, link: DistanceConstraint) -> EngineState {
        EngineState { constraints: self.constraints.push(link), ..self }
    }

    /// The state after `motion` was offered to body `index`.
    pub open spec fn with_motion(self, index: int, motion: Motion) -> EngineState
        recommends
            0 <= index < self.bodies.len(),
    {
        EngineState { bodies: self.bodies.update(index, self.bodies[index].after(motion)), ..self }
    }

    /// Whether body `i` is one that a pointer at `locals[i]`, in that body's
    /// frame, picks up: it is not static and the point lies in its box.
    pub open spec fn grabs(self, locals: Seq<Vec2>, i: int) -> bool
        recommends
            0 <= i < self.bodies.len(),
            locals.len() == self.bodies.len(),
    {
        !self.bodies[i].fixed() && self.bodies[i].covers(locals[i])
    }

    /// Whether body `i` is the one that a drag takes hold of: the first in
    /// registry order that the pointer picks up.
    pub open spec fn grabs_first(self, locals: Seq<Vec2>, i: int) -> bool
        recommends
            locals.len() == self.bodies.len(),
    {
        &&& 0 <= i < self.bodies.len()
        &&& self.grabs(locals, i)
        &&& forall|k: int| 0 <= k < i ==> !self.grabs(locals, k)
    }

    /// The link that a drag of body `i` creates: from the grabbed point of
    /// the body to the pointer, with rest length zero and stiffness one half.
    pub open spec fn drag_link(i: usize, local: Vec2, pointer: Vec2) -> DistanceConstraint {
        DistanceConstraint {
            anchor_a: Anchor::BodyPoint { body: i, local_point: local },
            anchor_b: Anchor::Fixed(pointer),
            rest_length: Scalar::encoded(0),
            stiffness: Scalar::encoded(HALF_BITS),
        }
    }

    /// The state after a drag of body `i` has started.
    pub open spec fn with_drag(self, i: usize, local: Vec2, pointer: Vec2) -> EngineState {
        EngineState {
            constraints: self.constraints.push(Self::drag_link(i, local, pointer)),
            drag: Some(self.constraints.len() as usize),
            ..self
        }
    }

    /// The state after the pointer has moved to `pointer`.
    pub open spec fn with_pointer(self, pointer: Vec2) -> EngineState {
        match self.drag {
            Some(d) => EngineState {
                constraints: self.constraints.update(
                    d as int,
                    DistanceConstraint {
                        anchor_b: Anchor::Fixed(pointer),
                        ..self.constraints[d as int]
                    },
                ),
                ..self
            },
            None => self,
        }
    }

    /// The state after the drag, if any, has ended.
    pub open spec fn without_drag(self) -> EngineState {
        match self.drag {
            Some(d) => EngineState {
                constraints: self.constraints.remove(d as int),
                drag: None,
                ..self
            },
            None => self,
        }
    }
}

/// One thing that can happen to an engine between its creation and its
/// reset.
pub enum Change {
    /// A body joins the registry.
    Body(RigidBody),
    /// A link joins the list.
    Link(DistanceConstraint),
    /// A new pose and new velocities are offered to a body.
    Motion(int, Motion),
    /// A drag of a body starts, with the grabbed point and the pointer.
    Drag(usize, Vec2, Vec2),
    /// The pointer moves.
    Pointer(Vec2),
    /// The drag ends.
    Release,
    Gravity(Vec2),
    Iterations(usize),
    Walls(Bounds),
}

impl Change {
    /// Whether the change names only bodies that the state holds.
    pub open spec fn fits(self, state: EngineState) -> bool {
        match self {
            Change::Link(link) => link.within(state.bodies.len()),
            Change::Drag(i, _, _) => i < state.bodies.len() && state.constraints.len()
                < usize::MAX,
            _ => true,
        }
    }
}

impl EngineState {
    /// The state after one change. A motion offered to a body that the
    /// registry does not hold changes nothing.
    pub open spec fn changed(self, change: Change) -> EngineState {
        match change {
            Change::Body(body) => self.with_body(body),
            Change::Link(link) => self.with_link(link),
            Change::Motion(index, motion) => if 0 <= index < self.bodies.len() {
                self.with_motion(index, motion)
            } else {
                self
            },
            Change::Drag(i, local, pointer) => self.with_drag(i, local, pointer),
            Change::Pointer(pointer) => self.with_pointer(pointer),
            Change::Release => self.without_drag(),
            Change::Gravity(gravity) => EngineState { gravity, ..self },
            Change::Iterations(iterations) => EngineState { iterations, ..self },
            Change::Walls(bounds) => EngineState { bounds: Some(bounds), ..self },
        }
    }

    /// The state after a run of changes, first to last.
    pub open spec fn changed_by(self, changes: Seq<Change>) -> EngineState
        decreases changes.len(),
    {
        if changes.len() == 0 {
            self
        } else {
            self.changed_by(changes.drop_last()).changed(changes.last())
        }
    }
}

pub struct ConstraintPhysicsEngine {
    bodies: Vec<RigidBody>,
    distance_constraints: Vec<DistanceConstraint>,
    gravity: Vec2,
    iterations: usize,
    mouse_constraint_index: Option<usize>,
    bounds: Option<Bounds>,
}

impl View for ConstraintPhysicsEngine {
    type V = EngineState;

    closed spec fn view(&self) -> EngineState {
        EngineState {
            bodies: self.bodies@,
            constraints: self.distance_constraints@,
            gravity: self.gravity,
            iterations: self.iterations,
            drag: self.mouse_constraint_index,
            bounds: self.bounds,
        }
    }
}

impl ConstraintPhysicsEngine {
    /// An engine without bodies, links or walls, with gravity `(0, 9.81)` and
    /// five solver rounds per step.
    pub fn new() -> (r: ConstraintPhysicsEngine)
        ensures
            r@ == EngineState::initial(),
            r@.wf(),
    {
        ConstraintPhysicsEngine {
            bodies: Vec::new(),
            distance_constraints: Vec::new(),
            gravity: Vec2::new(Scalar::zero(), Scalar::from_bits(STANDARD_GRAVITY_BITS)),
            iterations: DEFAULT_ITERATIONS,
            mouse_constraint_index: None,
            bounds: None,
        }
    }

    /// Sets the walls.
    pub fn set_bounds(&mut self, width: Scalar, height: Scalar)
        ensures
            final(self)@ == old(self)@.changed(Change::Walls(Bounds { width, height })),
            old(self)@.wf() ==> final(self)@.wf(),
    {
        self.bounds = Some(Bounds { width, height });
    }

    /// Registers a box at rest at `(x, y)` and returns its index. A mass
    /// that is not finite makes the body static.
    pub fn add_body(
        &mut self,
        x: Scalar,
        y: Scalar,
        half_width: Scalar,
        half_height: Scalar,
        mass: Scalar,
        inertia: Scalar,
    ) -> (index: usize)
        ensures
            index == old(self)@.bodies.len(),
            final(self)@ == old(self)@.changed(
                Change::Body(
                    RigidBody::at_rest(Vec2 { x, y }, half_width, half_height, mass, inertia),
                ),
            ),
            old(self)@.wf() ==> final(self)@.wf(),
    {
        self.bodies.push(RigidBody::new(Vec2::new(x, y), half_width, half_height, mass, inertia));
        self.bodies.len() - 1
    }

    /// Registers a static box at `(x, y)` and returns its index.
    pub fn add_fixed_body(
        &mut self,
        x: Scalar,
        y: Scalar,
        half_width: Scalar,
        half_height: Scalar,
    ) -> (index: usize)
        ensures
            index == old(self)@.bodies.len(),
            final(self)@ == old(self)@.changed(
                Change::Body(
                    RigidBody::at_rest(
                        Vec2 { x, y },
                        half_width,
                        half_height,
                        Scalar::encoded(INFINITY_BITS),
                        Scalar::encoded(INFINITY_BITS),
                    ),
                ),
            ),
            final(self)@.bodies[index as int].fixed(),
            old(self)@.wf() ==> final(self)@.wf(),
    {
        self.add_body(x, y, half_width, half_height, Scalar::infinity(), Scalar::infinity())
    }

    /// Links the centres of two bodies.
    pub fn add_distance_constraint(
        &mut self,
        body_a: usize,
        body_b: usize,
        rest_length: Scalar,
        stiffness: Scalar,
    )
        requires
            body_a < old(self)@.bodies.len(),
            body_b < old(self)@.bodies.len(),
        ensures
            final(self)@ == old(self)@.changed(
                Change::Link(
                    DistanceConstraint {
                        anchor_a: Anchor::BodyIndex(body_a),
                        anchor_b: Anchor::BodyIndex(body_b),
                        rest_length,
                        stiffness,
                    },
                ),
            ),
            old(self)@.wf() ==> final(self)@.wf(),
    {
        self.distance_constraints.push(
            DistanceConstraint {
                anchor_a: Anchor::BodyIndex(body_a),
                anchor_b: Anchor::BodyIndex(body_b),
                rest_length,
                stiffness,
            },
        );
    }

    /// Links a point of the world to the centre of a body.
    pub fn add_fixed_distance_constraint(
        &mut self,
        fixed_x: Scalar,
        fixed_y: Scalar,
        body: usize,
        rest_length: Scalar,
        stiffness: Scalar,
    )
        requires
            body < old(self)@.bodies.len(),
        ensures
            final(self)@ == old(self)@.changed(
                Change::Link(
                    DistanceConstraint {
                        anchor_a: Anchor::Fixed(Vec2 { x: fixed_x, y: fixed_y }),
                        anchor_b: Anchor::BodyIndex(body),
                        rest_length,
                        stiffness,
                    },
                ),
            ),
            old(self)@.wf() ==> final(self)@.wf(),
    {
        self.distance_constraints.push(
            DistanceConstraint {
                anchor_a: Anchor::Fixed(Vec2::new(fixed_x, fixed_y)),
                anchor_b: Anchor::BodyIndex(body),
                rest_length,
                stiffness,
            },
        );
    }

    /// Starts a drag at the pointer `(world_x, world_y)`.
    ///
    /// `local_points[i]` is the pointer as seen from body `i`. The first body
    /// in registry order that is not static and whose box holds the pointer
    /// is grabbed: a link from the grabbed point to the pointer joins the
    /// list, the drag marker names it, and the body's index is returned.
    /// Where no body is grabbed, be it that the pointer is over empty space
    /// or over static bodies alone, the result is -1 and nothing changes,
    /// however many bodies there are. The index of a body that is grabbed
    /// has to fit the result.
    ///
    /// The engine follows one drag. A drag started while another lasts takes
    /// the marker over, and the earlier link stays behind as an ordinary one.
    pub fn start_mouse_drag(
        &mut self,
        world_x: Scalar,
        world_y: Scalar,
        local_points: &Vec<Vec2>,
    ) -> (hit: i32)
        requires
            local_points@.len() == old(self)@.bodies.len(),
            forall|k: int| #[trigger]
                old(self)@.grabs_first(local_points@, k) ==> k <= i32::MAX,
        ensures
            -1 <= hit < old(self)@.bodies.len(),
            hit == -1 <==> forall|k: int|
                0 <= k < old(self)@.bodies.len() ==> !old(self)@.grabs(local_points@, k),
            hit == -1 ==> final(self)@ == old(self)@,
            hit >= 0 ==> old(self)@.grabs_first(local_points@, hit as int) && final(self)@ == old(
                self,
            )@.changed(
                Change::Drag(
                    hit as usize,
                    local_points@[hit as int],
                    Vec2 { x: world_x, y: world_y },
                ),
            ),
            old(self)@.wf() ==> final(self)@.wf(),
    {
        let pointer = Vec2::new(world_x, world_y);
        let count: usize = self.bodies.len();
        let mut i: usize = 0;
        while i < count
            invariant
                i <= count,
                count == self.bodies@.len(),
                forall|k: int| #[trigger] self@.grabs_first(local_points@, k) ==> k <= i32::MAX,
                local_points@.len() == count,
                *self == *old(self),
                pointer == (Vec2 { x: world_x, y: world_y }),
                forall|k: int| 0 <= k < i ==> !self@.grabs(local_points@, k),
            decreases count - i,
        {
            if !self.bodies[i].is_static() && self.bodies[i].contains_point(&local_points[i]) {
                self.distance_constraints.push(
                    DistanceConstraint {
                        anchor_a: Anchor::BodyPoint { body: i, local_point: local_points[i] },
                        anchor_b: Anchor::Fixed(pointer),
                        rest_length: Scalar::zero(),
                        stiffness: Scalar::half(),
                    },
                );
                self.mouse_constraint_index = Some(self.distance_constraints.len() - 1);
                assert(old(self)@.grabs_first(local_points@, i as int));
                proof {
                    let started = old(self)@.with_drag(i, local_points@[i as int], pointer);
                    assert(self@.constraints =~= started.constraints);
                }
                return i as i32;
            }
            i += 1;
        }
        -1
    }

    /// Moves the pointer end of the dragged link to `(world_x, world_y)`.
    /// Without a drag nothing changes.
    pub fn update_mouse_position(&mut self, world_x: Scalar, world_y: Scalar)
        requires
            old(self)@.wf(),
        ensures
            final(self)@ == old(self)@.changed(Change::Pointer(Vec2 { x: world_x, y: world_y })),
            final(self)@.wf(),
    {
        if let Some(idx) = self.mouse_constraint_index {
            let link = self.distance_constraints[idx];
            self.distance_constraints[idx] = DistanceConstraint {
                anchor_a: link.anchor_a,
                anchor_b: Anchor::Fixed(Vec2::new(world_x, world_y)),
                rest_length: link.rest_length,
                stiffness: link.stiffness,
            };
        }
    }

    /// Ends the drag: the dragged link leaves the list. Without a drag
    /// nothing changes.
    pub fn end_mouse_drag(&mut self)
        requires
            old(self)@.wf(),
        ensures
            final(self)@ == old(self)@.changed(Change::Release),
            final(self)@.wf(),
    {
        if let Some(idx) = self.mouse_constraint_index {
            self.distance_constraints.remove(idx);
            self.mouse_constraint_index = None;
        }
    }

    /// Offers a new pose and new velocities to a body. A static body keeps
    /// what it has.
    pub fn move_body(&mut self, index: usize, motion: Motion)
        requires
            index < old(self)@.bodies.len(),
        ensures
            final(self)@ == old(self)@.changed(Change::Motion(index as int, motion)),
            old(self)@.wf() ==> final(self)@.wf(),
    {
        let body = self.bodies[index].moved(motion);
        self.bodies[index] = body;
    }

    /// Moves a body through one time step: it takes a new velocity, a new
    /// position and a new angle. Its angular velocity stays, and a static
    /// body keeps what it has.
    pub fn advance_body(&mut self, index: usize, velocity: Vec2, position: Vec2, angle: Scalar)
        requires
            index < old(self)@.bodies.len(),
        ensures
            final(self)@ == old(self)@.changed(
                Change::Motion(
                    index as int,
                    Motion { velocity, position, angle, ..old(self)@.bodies[index as int].kinematics() },
                ),
            ),
            old(self)@.wf() ==> final(self)@.wf(),
    {
        let angular_velocity = self.bodies[index].angular_velocity;
        self.move_body(index, Motion { position, velocity, angle, angular_velocity });
    }

    /// Gives a body a new velocity and a new angular velocity, as damping
    /// and the impulse of a link do. Its position and angle stay, and a
    /// static body keeps what it has.
    pub fn set_body_velocities(&mut self, index: usize, velocity: Vec2, angular_velocity: Scalar)
        requires
            index < old(self)@.bodies.len(),
        ensures
            final(self)@ == old(self)@.changed(
                Change::Motion(
                    index as int,
                    Motion {
                        velocity,
                        angular_velocity,
                        ..old(self)@.bodies[index as int].kinematics()
                    },
                ),
            ),
            old(self)@.wf() ==> final(self)@.wf(),
    {
        let body = self.bodies[index];
        self.move_body(
            index,
            Motion { position: body.position, velocity, angle: body.angle, angular_velocity },
        );
    }

    /// Gives a body new velocities and a corrected position, as the
    /// resolution of a contact does. Its angle stays, and a static body
    /// keeps what it has.
    pub fn correct_body(
        &mut self,
        index: usize,
        velocity: Vec2,
        angular_velocity: Scalar,
        position: Vec2,
    )
        requires
            index < old(self)@.bodies.len(),
        ensures
            final(self)@ == old(self)@.changed(
                Change::Motion(
                    index as int,
                    Motion {
                        velocity,
                        angular_velocity,
                        position,
                        ..old(self)@.bodies[index as int].kinematics()
                    },
                ),
            ),
            old(self)@.wf() ==> final(self)@.wf(),
    {
        let angle = self.bodies[index].angle;
        self.move_body(index, Motion { position, velocity, angle, angular_velocity });
    }

    pub fn body(&self, index: usize) -> (r: RigidBody)
        requires
            index < self@.bodies.len(),
        ensures
            r == self@.bodies[index as int],
    {
        self.bodies[index]
    }

    pub fn body_position(&self, index: usize) -> (r: Vec2)
        requires
            index < self@.bodies.len(),
        ensures
            r == self@.bodies[index as int].position,
    {
        self.bodies[index].position
    }

    pub fn body_mass(&self, index: usize) -> (r: Scalar)
        requires
            index < self@.bodies.len(),
        ensures
            r == self@.bodies[index as int].mass,
    {
        self.bodies[index].mass
    }

    pub fn body_angle(&self, index: usize) -> (r: Scalar)
        requires
            index < self@.bodies.len(),
        ensures
            r == self@.bodies[index as int].angle,
    {
        self.bodies[index].angle
    }

    pub fn body_velocity(&self, index: usize) -> (r: Vec2)
        requires
            index < self@.bodies.len(),
        ensures
            r == self@.bodies[index as int].velocity,
    {
        self.bodies[index].velocity
    }

    pub fn body_angular_velocity(&self, index: usize) -> (r: Scalar)
        requires
            index < self@.bodies.len(),
        ensures
            r == self@.bodies[index as int].angular_velocity,
    {
        self.bodies[index].angular_velocity
    }

    pub fn get_body_count(&self) -> (r: usize)
        ensures
            r == self@.bodies.len(),
    {
        self.bodies.len()
    }

    pub fn constraint_count(&self) -> (r: usize)
        ensures
            r == self@.constraints.len(),
    {
        self.distance_constraints.len()
    }

    pub fn constraint(&self, index: usize) -> (r: DistanceConstraint)
        requires
            index < self@.constraints.len(),
        ensures
            r == self@.constraints[index as int],
    {
        self.distance_constraints[index]
    }

    pub fn gravity(&self) -> (r: Vec2)
        ensures
            r == self@.gravity,
    {
        self.gravity
    }

    pub fn iterations(&self) -> (r: usize)
        ensures
            r == self@.iterations,
    {
        self.iterations
    }

    pub fn bounds(&self) -> (r: Option<Bounds>)
        ensures
            r == self@.bounds,
    {
        self.bounds
    }

    /// The index of the dragged link, while a drag lasts.
    pub fn dragged_constraint(&self) -> (r: Option<usize>)
        ensures
            r == self@.drag,
    {
        self.mouse_constraint_index
    }

    pub fn set_gravity(&mut self, x: Scalar, y: Scalar)
        ensures
            final(self)@ == old(self)@.changed(Change::Gravity(Vec2 { x, y })),
            old(self)@.wf() ==> final(self)@.wf(),
    {
        self.gravity = Vec2::new(x, y);
    }

    pub fn set_iterations(&mut self, iterations: usize)
        ensures
            final(self)@ == old(self)@.changed(Change::Iterations(iterations)),
            old(self)@.wf() ==> final(self)@.wf(),
    {
        self.iterations = iterations;
    }

    /// Forgets every body and link and ends the drag. Gravity, the number of
    /// rounds and the walls stay.
    pub fn destroy(&mut self)
        ensures
            final(self)@ == (EngineState {
                bodies: Seq::empty(),
                constraints: Seq::empty(),
                drag: None,
                ..old(self)@
            }),
            final(self)@.wf(),
    {
        self.bodies.clear();
        self.distance_constraints.clear();
        self.mouse_constraint_index = None;
    }
}

/// A static body keeps its place in the registry, its pose and its
/// velocities whatever happens to the engine short of a reset: whatever
/// bodies and links are added, whatever motions the steps offer, whatever
/// is dragged, and whatever gravity, round count or walls are set.
pub proof fn lemma_static_bodies_stay(state: EngineState, changes: Seq<Change>, i: int)
    requires
        0 <= i < state.bodies.len(),
        state.bodies[i].fixed(),
    ensures
        i < state.changed_by(changes).bodies.len(),
        state.changed_by(changes).bodies[i] == state.bodies[i],
    decreases changes.len(),
{
    if changes.len() > 0 {
        lemma_static_bodies_stay(state, changes.drop_last(), i);
    }
}

/// The registry only grows, and a body keeps its index, its mass, its
/// inertia and its extents for as long as the engine is not reset.
pub proof fn lemma_registry_only_grows(state: EngineState, changes: Seq<Change>, i: int)
    requires
        0 <= i < state.bodies.len(),
    ensures
        state.bodies.len() <= state.changed_by(changes).bodies.len(),
        state.changed_by(changes).bodies[i].mass == state.bodies[i].mass,
        state.changed_by(changes).bodies[i].inertia == state.bodies[i].inertia,
        state.changed_by(changes).bodies[i].half_width == state.bodies[i].half_width,
        state.changed_by(changes).bodies[i].half_height == state.bodies[i].half_height,
    decreases changes.len(),
{
    if changes.len() > 0 {
        lemma_registry_only_grows(state, changes.drop_last(), i);
    }
}

/// A well-formed engine stays well-formed under every change that names
/// only bodies it holds.
pub proof fn lemma_change_keeps_well_formed(state: EngineState, change: Change)
    requires
        state.wf(),
        change.fits(state),
    ensures
        state.changed(change).wf(),
{
    let after = state.changed(change);
    assert forall|k: int| 0 <= k < after.constraints.len() implies (
    #[trigger] after.constraints[k]).within(after.bodies.len()) by {
        match change {
            Change::Release => {
                if let Some(d) = state.drag {
                    if k < d {
                        assert(after.constraints[k] == state.constraints[k]);
                    } else {
                        assert(after.constraints[k] == state.constraints[k + 1]);
                    }
                }
            },
            Change::Pointer(_) => {
                if let Some(d) = state.drag {
                    assert(state.constraints[k].within(state.bodies.len()));
                }
            },
            Change::Link(_) => {
                if k < state.constraints.len() {
                    assert(after.constraints[k] == state.constraints[k]);
                }
            },
            Change::Drag(_, _, _) => {
                if k < state.constraints.len() {
                    assert(after.constraints[k] == state.constraints[k]);
                }
            },
            _ => {
                assert(after.constraints[k] == state.constraints[k]);
            },
        }
    }
}

/// A static body is never grabbed, wherever the pointer is.
pub proof fn lemma_static_body_not_grabbed(state: EngineState, locals: Seq<Vec2>, i: int)
    requires
        0 <= i < state.bodies.len(),
        state.bodies[i].fixed(),
    ensures
        !state.grabs(locals, i),
{
}

/// Without a drag, moving the pointer and ending the drag leave the engine
/// as it is.
pub proof fn lemma_release_without_drag(state: EngineState, pointer: Vec2)
    requires
        state.drag is None,
    ensures
        state.without_drag() == state,
        state.with_pointer(pointer) == state,
{
}

/// A drag that starts and ends leaves the links as they were.
pub proof fn lemma_drag_round_trip(state: EngineState, i: usize, local: Vec2, pointer: Vec2)
    requires
        state.constraints.len() <= usize::MAX,
    ensures
        state.with_drag(i, local, pointer).without_drag().constraints == state.constraints,
        state.with_drag(i, local, pointer).without_drag().drag is None,
{
    let started = state.with_drag(i, local, pointer);
    assert(started.without_drag().constraints =~= state.constraints);
}

} // verus!
