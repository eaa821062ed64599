//! Whole steps, with the arithmetic done here in double precision and every
//! decision taken by the library.

use physics_engine::body::{Motion, RigidBody};
use physics_engine::collision::{
    check_collision_sat, find_contact_point, orient_normal, project_onto_axis, AxisTest,
};
use physics_engine::constraint::{Anchor, CollisionContact};
use physics_engine::engine::ConstraintPhysicsEngine;
use physics_engine::scalar::Scalar;
use physics_engine::schedule::Task;
use physics_engine::solver::{
    separating, Wall, CONTACT_RESTITUTION_BITS, CONTACT_SLOP_BITS, CORRECTION_PERCENT_BITS,
    DAMPING_BITS, STEPS_PER_SECOND_BITS, WALL_RESTITUTION_BITS,
};
use physics_engine::vector::Vec2;

fn num(s: Scalar) -> f64 {
    f64::from_bits(s.to_bits())
}

fn scalar(v: f64) -> Scalar {
    Scalar::from_bits(v.to_bits())
}

#[derive(Clone, Copy, Debug, PartialEq)]
struct V {
    x: f64,
    y: f64,
}

fn v(p: Vec2) -> V {
    V { x: num(p.x), y: num(p.y) }
}

fn vec2(p: V) -> Vec2 {
    Vec2::new(scalar(p.x), scalar(p.y))
}

impl V {
    fn length(self) -> f64 {
        (self.x * self.x + self.y * self.y).sqrt()
    }

    fn normalize(self) -> V {
        let len = self.length();
        if len == 0.0 {
            V { x: 0.0, y: 0.0 }
        } else {
            V { x: self.x / len, y: self.y / len }
        }
    }

    fn dot(self, other: V) -> f64 {
        self.x * other.x + self.y * other.y
    }

    fn cross(self, other: V) -> f64 {
        self.x * other.y - self.y * other.x
    }

    fn plus(self, other: V) -> V {
        V { x: self.x + other.x, y: self.y + other.y }
    }

    fn minus(self, other: V) -> V {
        V { x: self.x - other.x, y: self.y - other.y }
    }

    fn times(self, scalar: f64) -> V {
        V { x: self.x * scalar, y: self.y * scalar }
    }

    fn rotate(self, angle: f64) -> V {
        let (sin, cos) = (angle.sin(), angle.cos());
        V { x: self.x * cos - self.y * sin, y: self.x * sin + self.y * cos }
    }
}

fn inertia(mass: f64, half_width: f64, half_height: f64) -> f64 {
    mass * (4.0 * half_width * half_width + 4.0 * half_height * half_height) / 12.0
}

fn add_body(e: &mut ConstraintPhysicsEngine, x: f64, y: f64, hw: f64, hh: f64, mass: f64) -> usize {
    e.add_body(
        scalar(x),
        scalar(y),
        scalar(hw),
        scalar(hh),
        scalar(mass),
        scalar(inertia(mass, hw, hh)),
    )
}

fn local_to_world(body: &RigidBody, point: V) -> V {
    point.rotate(num(body.angle)).plus(v(body.position))
}

fn world_to_local(body: &RigidBody, point: V) -> V {
    point.minus(v(body.position)).rotate(-num(body.angle))
}

fn corners(body: &RigidBody) -> Vec<V> {
    body.local_corners().into_iter().map(|c| local_to_world(body, v(c))).collect()
}

fn axes(body: &RigidBody) -> [V; 2] {
    let angle = num(body.angle);
    [V { x: angle.cos(), y: angle.sin() }, V { x: -angle.sin(), y: angle.cos() }]
}

fn span(body: &RigidBody, axis: V) -> (f64, f64) {
    let projections: Vec<Scalar> = corners(body).into_iter().map(|c| scalar(c.dot(axis))).collect();
    let (min, max) = project_onto_axis(&projections);
    (num(min), num(max))
}

fn axis_test(a: &RigidBody, b: &RigidBody, axis: V) -> AxisTest {
    let (min_a, max_a) = span(a, axis);
    let (min_b, max_b) = span(b, axis);
    AxisTest {
        axis: vec2(axis),
        min_a: scalar(min_a),
        max_a: scalar(max_a),
        min_b: scalar(min_b),
        max_b: scalar(max_b),
        overlap: scalar((max_a.min(max_b) - min_a.max(min_b)).abs()),
    }
}

fn detect(e: &ConstraintPhysicsEngine, idx_a: usize, idx_b: usize) -> Option<CollisionContact> {
    let a = e.body(idx_a);
    let b = e.body(idx_b);
    let mut tests = Vec::new();
    for axis in axes(&a) {
        tests.push(axis_test(&a, &b, axis));
    }
    for axis in axes(&b) {
        tests.push(axis_test(&a, &b, axis));
    }
    let found = check_collision_sat(&tests)?;
    let center_diff = v(b.position).minus(v(a.position));
    let toward = v(found.normal).dot(center_diff);
    let normal = orient_normal(found.normal, scalar(toward));
    let n = v(normal);
    let mut all = Vec::new();
    let mut depths = Vec::new();
    for corner in corners(&a) {
        depths.push(scalar(corner.minus(v(b.position)).dot(n.times(-1.0))));
        all.push(vec2(corner));
    }
    for corner in corners(&b) {
        depths.push(scalar(corner.minus(v(a.position)).dot(n)));
        all.push(vec2(corner));
    }
    Some(CollisionContact {
        body_a: idx_a,
        body_b: idx_b,
        contact_point: find_contact_point(&all, &depths),
        normal,
        penetration: found.penetration,
    })
}

fn pushed(body: &RigidBody, impulse: V, lever: V) -> (Vec2, Scalar) {
    let velocity = v(body.velocity).plus(impulse.times(1.0 / num(body.mass)));
    let spin = num(body.angular_velocity) + lever.cross(impulse) / num(body.inertia);
    (vec2(velocity), scalar(spin))
}

fn push(e: &mut ConstraintPhysicsEngine, index: usize, impulse: V, lever: V) {
    let (velocity, spin) = pushed(&e.body(index), impulse, lever);
    e.set_body_velocities(index, velocity, spin);
}

fn push_and_shift(e: &mut ConstraintPhysicsEngine, index: usize, impulse: V, lever: V, shift: V) {
    let body = e.body(index);
    let (velocity, spin) = pushed(&body, impulse, lever);
    e.correct_body(index, velocity, spin, vec2(v(body.position).plus(shift)));
}

struct End {
    position: V,
    lever: V,
}

fn resolve_anchor(e: &ConstraintPhysicsEngine, anchor: &Anchor) -> End {
    match anchor {
        Anchor::Fixed(p) => End { position: v(*p), lever: V { x: 0.0, y: 0.0 } },
        Anchor::BodyIndex(i) => {
            End { position: v(e.body(*i).position), lever: V { x: 0.0, y: 0.0 } }
        }
        Anchor::BodyPoint { body, local_point } => {
            let b = e.body(*body);
            let world = local_to_world(&b, v(*local_point));
            End { position: world, lever: world.minus(v(b.position)) }
        }
    }
}

fn share(e: &ConstraintPhysicsEngine, side: Option<usize>, lever_cross_n: f64) -> f64 {
    match side {
        Some(i) => {
            let body = e.body(i);
            1.0 / num(body.mass) + lever_cross_n * lever_cross_n / num(body.inertia)
        }
        None => 0.0,
    }
}

fn solve_link(e: &mut ConstraintPhysicsEngine, index: usize) {
    let link = e.constraint(index);
    let a = resolve_anchor(e, &link.anchor_a);
    let b = resolve_anchor(e, &link.anchor_b);
    let delta = b.position.minus(a.position);
    let length = delta.length();
    let Some(sides) = e.link_sides(&link, scalar(length)) else {
        return;
    };
    let direction = delta.normalize();
    let error = length - num(link.rest_length);
    let effective_mass = match (sides.a, sides.b) {
        (Some(_), Some(_)) => {
            let (ma, mb) = (e.body(sides.a.unwrap()), e.body(sides.b.unwrap()));
            let (ca, cb) = (a.lever.cross(direction), b.lever.cross(direction));
            1.0 / num(ma.mass)
                + 1.0 / num(mb.mass)
                + ca * ca / num(ma.inertia)
                + cb * cb / num(mb.inertia)
        }
        (Some(_), None) => share(e, sides.a, a.lever.cross(direction)),
        _ => share(e, sides.b, b.lever.cross(direction)),
    };
    let impulse = direction.times(-error * num(link.stiffness) / effective_mass);
    if let Some(i) = sides.a {
        push(e, i, impulse.times(-1.0), a.lever);
    }
    if let Some(i) = sides.b {
        push(e, i, impulse, b.lever);
    }
}

fn point_velocity(body: &RigidBody, lever: V) -> V {
    let spin = num(body.angular_velocity);
    v(body.velocity).plus(V { x: -lever.y * spin, y: lever.x * spin })
}

fn solve_contact(e: &mut ConstraintPhysicsEngine, contact: &CollisionContact) {
    let a = e.body(contact.body_a);
    let b = e.body(contact.body_b);
    let normal = v(contact.normal);
    let ra = v(contact.contact_point).minus(v(a.position));
    let rb = v(contact.contact_point).minus(v(b.position));
    let along = point_velocity(&b, rb).minus(point_velocity(&a, ra)).dot(normal);
    let Some(sides) = e.contact_sides(contact, scalar(along)) else {
        return;
    };
    let (ca, cb) = (ra.cross(normal), rb.cross(normal));
    let inv_mass_sum = (if sides.a.is_some() { 1.0 / num(a.mass) } else { 0.0 })
        + (if sides.b.is_some() { 1.0 / num(b.mass) } else { 0.0 })
        + (if sides.a.is_some() { ca * ca / num(a.inertia) } else { 0.0 })
        + (if sides.b.is_some() { cb * cb / num(b.inertia) } else { 0.0 });
    let restitution = f64::from_bits(CONTACT_RESTITUTION_BITS);
    let impulse = normal.times(-(1.0 + restitution) * along / inv_mass_sum);
    let depth = (num(contact.penetration) - f64::from_bits(CONTACT_SLOP_BITS)).max(0.0)
        * f64::from_bits(CORRECTION_PERCENT_BITS);
    let correction = normal.times(depth / inv_mass_sum);
    if let Some(i) = sides.a {
        let shift = correction.times(-1.0).times(1.0 / num(a.mass));
        push_and_shift(e, i, impulse.times(-1.0), ra, shift);
    }
    if let Some(i) = sides.b {
        push_and_shift(e, i, impulse, rb, correction.times(1.0 / num(b.mass)));
    }
}

fn resolve_wall(e: &mut ConstraintPhysicsEngine, index: usize, wall: Wall) {
    let Some(bounds) = e.bounds() else {
        return;
    };
    let body = e.body(index);
    let (x, y) = (num(body.position.x), num(body.position.y));
    let (hw, hh) = (num(body.half_width), num(body.half_height));
    let (edge, penetration) = match wall {
        Wall::Left => (x - hw, hw - x),
        Wall::Right => (x + hw, x + hw - num(bounds.width)),
        Wall::Top => (y - hh, hh - y),
        Wall::Bottom => (y + hh, y + hh - num(bounds.height)),
    };
    if !wall.crossed(scalar(edge), &bounds) {
        return;
    }
    let normal = v(wall.normal());
    let contact_point = local_to_world(&body, v(wall.edge_midpoint(body.half_width, body.half_height)));
    let lever = contact_point.minus(v(body.position));
    let along = point_velocity(&body, lever).dot(normal);
    if separating(scalar(along)) {
        return;
    }
    let c = lever.cross(normal);
    let inv_mass = 1.0 / num(body.mass) + c * c / num(body.inertia);
    let restitution = f64::from_bits(WALL_RESTITUTION_BITS);
    let impulse = normal.times(-(1.0 + restitution) * along / inv_mass);
    let depth = penetration.max(0.0) * f64::from_bits(CORRECTION_PERCENT_BITS);
    let correction = normal.times(depth / inv_mass);
    push_and_shift(e, index, impulse, lever, correction.times(1.0 / num(body.mass)));
}

fn integrate(e: &mut ConstraintPhysicsEngine, index: usize, dt: f64) {
    let body = e.body(index);
    let mut velocity = v(body.velocity);
    velocity.y += num(e.gravity().y) * dt;
    let position = v(body.position).plus(velocity.times(dt));
    let angle = num(body.angle) + num(body.angular_velocity) * dt;
    e.advance_body(index, vec2(velocity), vec2(position), scalar(angle));
}

fn damp(e: &mut ConstraintPhysicsEngine, index: usize) {
    let body = e.body(index);
    let factor = f64::from_bits(DAMPING_BITS);
    let velocity = v(body.velocity).times(factor);
    e.set_body_velocities(index, vec2(velocity), scalar(num(body.angular_velocity) * factor));
}

fn step(e: &mut ConstraintPhysicsEngine, dt_millis: f64) {
    let dt = dt_millis / f64::from_bits(STEPS_PER_SECOND_BITS);
    let mut contacts: Vec<CollisionContact> = Vec::new();
    for task in e.plan_step() {
        match task {
            Task::Integrate(i) => integrate(e, i, dt),
            Task::Damp(i) => damp(e, i),
            Task::SolveLink(k) => solve_link(e, k),
            Task::DetectPair(i, j) => {
                if let Some(contact) = detect(e, i, j) {
                    contacts.push(contact);
                }
            }
            Task::ResolveContacts => {
                for contact in contacts.drain(..) {
                    solve_contact(e, &contact);
                }
            }
            Task::ResolveWall(i, wall) => resolve_wall(e, i, wall),
        }
    }
}

fn start_drag(e: &mut ConstraintPhysicsEngine, x: f64, y: f64) -> i32 {
    let pointer = V { x, y };
    let locals: Vec<Vec2> = (0..e.get_body_count())
        .map(|i| vec2(world_to_local(&e.body(i), pointer)))
        .collect();
    e.start_mouse_drag(scalar(x), scalar(y), &locals)
}

fn distance(e: &ConstraintPhysicsEngine, a: usize, b: usize) -> f64 {
    v(e.body_position(b)).minus(v(e.body_position(a))).length()
}

fn place(e: &mut ConstraintPhysicsEngine, index: usize, angle: f64, velocity: V, spin: f64) {
    let body = e.body(index);
    e.move_body(
        index,
        Motion {
            position: body.position,
            velocity: vec2(velocity),
            angle: scalar(angle),
            angular_velocity: scalar(spin),
        },
    );
}

#[test]
fn link_without_contact_converges_to_rest_length() {
    let mut e = ConstraintPhysicsEngine::new();
    let id0 = add_body(&mut e, 0.0, 0.0, 0.5, 0.5, 1.0);
    let id1 = add_body(&mut e, 0.0, 3.0, 0.5, 0.5, 1.0);
    e.add_distance_constraint(id0, id1, scalar(2.0), scalar(1.0));
    e.set_gravity(scalar(0.0), scalar(0.0));
    for _ in 0..1000 {
        step(&mut e, 16.0);
    }
    let d = distance(&e, id0, id1);
    assert!((d - 2.0).abs() < 1e-3, "distance {d}");
}

#[test]
fn linked_unit_boxes_touch_at_rest_length() {
    // At the rest length of 2 the two boxes of half extent 1 touch, so the
    // contacts between them work against the link.
    let mut e = ConstraintPhysicsEngine::new();
    let id0 = add_body(&mut e, 0.0, 0.0, 1.0, 1.0, 1.0);
    let id1 = add_body(&mut e, 0.0, 3.0, 1.0, 1.0, 1.0);
    assert_eq!((id0, id1), (0, 1));
    e.add_distance_constraint(id0, id1, scalar(2.0), scalar(1.0));
    e.set_gravity(scalar(0.0), scalar(0.0));
    for _ in 0..200 {
        step(&mut e, 16.0);
    }
    let d = distance(&e, id0, id1);
    assert!((d - 2.3966889425055853).abs() < 1e-6, "distance {d}");
    assert!(d > 2.0 && d < 3.0);
}

#[test]
fn box_comes_to_rest_on_the_floor() {
    let mut e = ConstraintPhysicsEngine::new();
    let id = add_body(&mut e, 0.0, 0.0, 1.0, 1.0, 1.0);
    assert_eq!(num(e.gravity().y), 9.81);
    e.set_bounds(scalar(800.0), scalar(600.0));
    for _ in 0..3000 {
        step(&mut e, 16.0);
    }
    let y = num(e.body_position(id).y);
    let vy = num(e.body_velocity(id).y);
    assert!((y + 1.0 - 600.0).abs() < 0.01, "y {y}");
    assert!(vy.abs() < 0.1, "vy {vy}");
}

#[test]
fn box_without_walls_keeps_falling() {
    let mut e = ConstraintPhysicsEngine::new();
    let id = add_body(&mut e, 0.0, 0.0, 1.0, 1.0, 1.0);
    for _ in 0..3000 {
        step(&mut e, 16.0);
    }
    assert!(num(e.body_position(id).y) > 600.0);
}

#[test]
fn one_step_of_free_fall() {
    let mut e = ConstraintPhysicsEngine::new();
    let id = add_body(&mut e, 2.0, 3.0, 1.0, 1.0, 1.0);
    step(&mut e, 16.0);
    let vy = 9.81 * 0.016;
    assert_eq!(num(e.body_velocity(id).y), vy * 0.99);
    assert_eq!(num(e.body_velocity(id).x), 0.0);
    assert_eq!(num(e.body_position(id).y), 3.0 + vy * 0.016);
    assert_eq!(num(e.body_position(id).x), 2.0);
    assert_eq!(num(e.body_angle(id)), 0.0);
}

#[test]
fn boxes_apart_along_an_axis_give_no_contact() {
    let mut e = ConstraintPhysicsEngine::new();
    let a = add_body(&mut e, 0.0, 0.0, 1.0, 1.0, 1.0);
    let b = add_body(&mut e, 2.5, 0.0, 1.0, 1.0, 1.0);
    assert!(detect(&e, a, b).is_none());
    assert!(detect(&e, b, a).is_none());
}

#[test]
fn turned_boxes_apart_give_no_contact() {
    // Two unit squares turned by an eighth of a turn, corner to corner
    // along x: each reaches 1.414 from its centre, so 3 apart they miss.
    let mut e = ConstraintPhysicsEngine::new();
    let a = add_body(&mut e, 0.0, 0.0, 1.0, 1.0, 1.0);
    let b = add_body(&mut e, 3.0, 0.0, 1.0, 1.0, 1.0);
    let still = V { x: 0.0, y: 0.0 };
    place(&mut e, a, std::f64::consts::FRAC_PI_4, still, 0.0);
    place(&mut e, b, std::f64::consts::FRAC_PI_4, still, 0.0);
    assert!(detect(&e, a, b).is_none());
    // Their bounding squares overlap all the same.
    let c = add_body(&mut e, 1.3, 1.3, 1.0, 1.0, 1.0);
    place(&mut e, c, 0.0, still, 0.0);
    let d = add_body(&mut e, 3.0, 3.0, 0.5, 0.5, 1.0);
    place(&mut e, d, std::f64::consts::FRAC_PI_4, still, 0.0);
    assert!(detect(&e, c, d).is_none());
}

#[test]
fn overlapping_boxes_give_a_contact_towards_the_second() {
    let mut e = ConstraintPhysicsEngine::new();
    let a = add_body(&mut e, 0.0, 0.0, 1.0, 1.0, 1.0);
    let b = add_body(&mut e, 1.5, 0.25, 1.0, 1.0, 1.0);
    let ab = detect(&e, a, b).unwrap();
    assert_eq!((ab.body_a, ab.body_b), (a, b));
    assert_eq!(v(ab.normal), V { x: 1.0, y: 0.0 });
    assert_eq!(num(ab.penetration), 0.5);
    assert_eq!(v(ab.contact_point), V { x: -1.0, y: -1.0 });
    let ba = detect(&e, b, a).unwrap();
    assert_eq!(ba.normal, vec2(V { x: -1.0, y: -0.0 }));
    assert_eq!(num(ba.penetration), 0.5);
    assert_eq!(v(ba.contact_point), V { x: 2.5, y: -0.75 });
    for contact in [ab, ba] {
        let from = v(e.body_position(contact.body_a));
        let to = v(e.body_position(contact.body_b));
        assert!(v(contact.normal).dot(to.minus(from)) >= 0.0);
        assert!(num(contact.penetration) > 0.0);
    }
}

#[test]
fn turned_overlapping_boxes_give_a_contact_towards_the_second() {
    let mut e = ConstraintPhysicsEngine::new();
    let a = add_body(&mut e, 0.0, 0.0, 1.0, 1.0, 1.0);
    let b = add_body(&mut e, 2.0, 0.0, 1.0, 1.0, 1.0);
    place(&mut e, b, std::f64::consts::FRAC_PI_4, V { x: 0.0, y: 0.0 }, 0.0);
    let contact = detect(&e, a, b).unwrap();
    let normal = v(contact.normal);
    assert!(normal.dot(V { x: 2.0, y: 0.0 }) >= 0.0);
    assert!((normal.length() - 1.0).abs() < 1e-12);
    let depth = num(contact.penetration);
    assert!((depth - (2.0_f64.sqrt() - 1.0)).abs() < 1e-12, "depth {depth}");
    // Of the eight corners the one that lies furthest along the normal.
    let point = v(contact.contact_point);
    assert!((point.x - (2.0 + 2.0_f64.sqrt())).abs() < 1e-12, "point {point:?}");
    assert!(point.y.abs() < 1e-12);
}

#[test]
fn static_body_is_never_moved() {
    let mut e = ConstraintPhysicsEngine::new();
    let floor = e.add_fixed_body(scalar(0.0), scalar(2.0), scalar(5.0), scalar(1.0));
    let crate_ = add_body(&mut e, 0.0, 0.5, 1.0, 1.0, 2.0);
    let post = add_body(&mut e, 4.0, -3.0, 0.5, 0.5, f64::INFINITY);
    e.add_distance_constraint(floor, crate_, scalar(1.0), scalar(1.0));
    e.add_distance_constraint(post, crate_, scalar(2.0), scalar(0.7));
    e.add_distance_constraint(floor, post, scalar(1.0), scalar(1.0));
    e.set_bounds(scalar(3.0), scalar(2.5));
    e.set_gravity(scalar(3.0), scalar(25.0));
    let before = (e.body(floor), e.body(post));
    let mut moved = false;
    for _ in 0..500 {
        let was = e.body(crate_);
        step(&mut e, 16.0);
        moved = moved || e.body(crate_) != was;
        assert_eq!((e.body(floor), e.body(post)), before);
    }
    assert!(moved);
}

#[test]
fn damping_never_speeds_a_body_up() {
    let mut e = ConstraintPhysicsEngine::new();
    let id = add_body(&mut e, 0.0, 0.0, 1.0, 1.0, 1.0);
    e.set_gravity(scalar(0.0), scalar(0.0));
    place(&mut e, id, 0.3, V { x: 3.0, y: -4.0 }, 2.0);
    let mut speed = v(e.body_velocity(id)).length();
    let mut spin = num(e.body_angular_velocity(id)).abs();
    assert_eq!((speed, spin), (5.0, 2.0));
    for _ in 0..2000 {
        step(&mut e, 16.0);
        let now = v(e.body_velocity(id)).length();
        let turning = num(e.body_angular_velocity(id)).abs();
        assert!(now <= speed && turning <= spin);
        speed = now;
        spin = turning;
    }
    assert!(speed < 1e-6 && spin < 1e-6);
}

#[test]
fn drag_pulls_the_grabbed_body_to_the_pointer() {
    let mut e = ConstraintPhysicsEngine::new();
    let wall = e.add_fixed_body(scalar(0.0), scalar(0.0), scalar(1.0), scalar(1.0));
    let id = add_body(&mut e, 5.0, 5.0, 1.0, 1.0, 1.0);
    e.set_gravity(scalar(0.0), scalar(0.0));
    assert_eq!(start_drag(&mut e, 20.0, 20.0), -1);
    assert_eq!(e.constraint_count(), 0);
    assert_eq!(start_drag(&mut e, 0.5, 0.5), -1);
    assert_eq!(e.constraint_count(), 0);
    assert_eq!(start_drag(&mut e, 5.5, 4.5), id as i32);
    assert_eq!(e.constraint_count(), 1);
    assert_eq!(e.dragged_constraint(), Some(0));
    let link = e.constraint(0);
    assert_eq!(
        link.anchor_a,
        Anchor::BodyPoint { body: id, local_point: vec2(V { x: 0.5, y: -0.5 }) }
    );
    assert_eq!(link.anchor_b, Anchor::Fixed(vec2(V { x: 5.5, y: 4.5 })));
    assert_eq!((num(link.rest_length), num(link.stiffness)), (0.0, 0.5));
    e.update_mouse_position(scalar(9.0), scalar(5.0));
    for _ in 0..2000 {
        step(&mut e, 16.0);
    }
    let body = e.body(id);
    let grabbed = local_to_world(&body, V { x: 0.5, y: -0.5 });
    assert!(grabbed.minus(V { x: 9.0, y: 5.0 }).length() < 1e-3, "grabbed point {grabbed:?}");
    e.end_mouse_drag();
    assert_eq!(e.constraint_count(), 0);
    assert_eq!(e.dragged_constraint(), None);
    assert_eq!(e.body(wall).position, vec2(V { x: 0.0, y: 0.0 }));
}

#[test]
fn resting_boxes_in_contact_are_left_in_place() {
    let mut e = ConstraintPhysicsEngine::new();
    let a = add_body(&mut e, 0.0, 0.0, 1.0, 1.0, 1.0);
    let b = add_body(&mut e, 1.5, 0.0, 1.0, 1.0, 1.0);
    e.set_gravity(scalar(0.0), scalar(0.0));
    let before = (e.body(a), e.body(b));
    let contact = detect(&e, a, b).unwrap();
    assert_eq!(num(contact.penetration), 0.5);
    assert_eq!(v(contact.contact_point), V { x: -1.0, y: -1.0 });
    solve_contact(&mut e, &contact);
    assert_eq!((e.body(a), e.body(b)), before);
    for _ in 0..10 {
        step(&mut e, 16.0);
    }
    assert_eq!(v(e.body_position(a)), V { x: 0.0, y: 0.0 });
    assert_eq!(v(e.body_position(b)), V { x: 1.5, y: 0.0 });
    assert_eq!(v(e.body_velocity(a)), V { x: 0.0, y: 0.0 });
    assert_eq!(v(e.body_velocity(b)), V { x: 0.0, y: 0.0 });
}

#[test]
fn closing_boxes_in_contact_are_pushed_apart() {
    let mut e = ConstraintPhysicsEngine::new();
    let a = add_body(&mut e, 0.0, 0.0, 1.0, 1.0, 1.0);
    let b = add_body(&mut e, 1.5, 0.0, 1.0, 1.0, 1.0);
    place(&mut e, b, 0.0, V { x: -1.0, y: 0.0 }, 0.0);
    let contact = detect(&e, a, b).unwrap();
    solve_contact(&mut e, &contact);
    // Each box gives way by half of a fifth of the depth beyond the slop,
    // and the impulse acts at the contact point, a corner of the first box.
    let near = |x: f64, y: f64| (x - y).abs() < 1e-12;
    assert!(near(num(e.body_position(a).x), -0.0196));
    assert!(near(num(e.body_position(b).x), 1.5196));
    assert!(near(num(e.body_velocity(a).x), -0.36));
    assert!(near(num(e.body_velocity(b).x), -0.64));
    assert!(near(num(e.body_angular_velocity(a)), -0.54));
    assert!(near(num(e.body_angular_velocity(b)), 0.54));
    assert_eq!((num(e.body_position(a).y), num(e.body_position(b).y)), (0.0, 0.0));
}

#[test]
fn box_resting_across_a_wall_is_left_in_place() {
    let mut e = ConstraintPhysicsEngine::new();
    let id = add_body(&mut e, 0.5, 5.0, 1.0, 1.0, 1.0);
    e.set_bounds(scalar(800.0), scalar(600.0));
    let before = e.body(id);
    resolve_wall(&mut e, id, Wall::Left);
    assert_eq!(e.body(id), before);
}

#[test]
fn turned_box_is_shifted_off_a_wall_by_its_effective_mass() {
    let mut e = ConstraintPhysicsEngine::new();
    let id = add_body(&mut e, 0.5, 5.0, 1.0, 0.5, 2.0);
    e.set_bounds(scalar(800.0), scalar(600.0));
    place(&mut e, id, 0.3, V { x: -1.0, y: 0.0 }, 0.0);
    resolve_wall(&mut e, id, Wall::Left);
    let body = e.body(id);
    // The lever from the centre to the midpoint of the left edge crosses
    // the normal at sin(0.3), so the effective mass is 1/2 + sin²(0.3)/I.
    let inertia = 2.0 * (4.0 + 1.0) / 12.0;
    let inv_mass = 0.5 + 0.3_f64.sin().powi(2) / inertia;
    let x = 0.5 + 0.5 * 0.2 / inv_mass / 2.0;
    assert!((num(body.position.x) - x).abs() < 1e-12);
    assert!((num(body.position.x) - 0.5826721447977612).abs() < 1e-12);
    assert_eq!(num(body.position.y), 5.0);
    assert!((num(body.velocity.x) - 0.40542646156194073).abs() < 1e-12);
    assert!((num(body.angular_velocity) - 0.9967966040834392).abs() < 1e-12);
    assert_eq!(num(body.angle), 0.3);
}
