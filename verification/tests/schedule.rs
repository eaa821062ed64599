use physics_engine::engine::ConstraintPhysicsEngine;
use physics_engine::scalar::Scalar;
use physics_engine::schedule::Task;
use physics_engine::solver::Wall;

fn s(v: f64) -> Scalar {
    Scalar::from_bits(v.to_bits())
}

fn dynamic(e: &mut ConstraintPhysicsEngine) -> usize {
    e.add_body(s(0.0), s(0.0), s(1.0), s(1.0), s(1.0), s(1.0))
}

fn fixed(e: &mut ConstraintPhysicsEngine) -> usize {
    e.add_fixed_body(s(0.0), s(0.0), s(1.0), s(1.0))
}

fn walls(i: usize) -> Vec<Task> {
    vec![
        Task::ResolveWall(i, Wall::Left),
        Task::ResolveWall(i, Wall::Right),
        Task::ResolveWall(i, Wall::Top),
        Task::ResolveWall(i, Wall::Bottom),
    ]
}

#[test]
fn empty_engine_still_runs_its_rounds() {
    let mut e = ConstraintPhysicsEngine::new();
    assert_eq!(e.plan_step(), vec![Task::ResolveContacts; 5]);
    e.set_bounds(s(800.0), s(600.0));
    assert_eq!(e.plan_step(), vec![Task::ResolveContacts; 5]);
    e.set_iterations(0);
    assert_eq!(e.plan_step(), Vec::new());
}

#[test]
fn step_integrates_damps_solves_and_holds_against_walls() {
    let mut e = ConstraintPhysicsEngine::new();
    let a = dynamic(&mut e);
    let b = fixed(&mut e);
    let c = dynamic(&mut e);
    e.add_distance_constraint(a, b, s(1.0), s(1.0));
    e.add_fixed_distance_constraint(s(0.0), s(0.0), c, s(1.0), s(1.0));
    e.set_iterations(2);
    e.set_bounds(s(800.0), s(600.0));
    let round = vec![
        Task::SolveLink(0),
        Task::SolveLink(1),
        Task::DetectPair(0, 1),
        Task::DetectPair(0, 2),
        Task::DetectPair(1, 2),
        Task::ResolveContacts,
    ];
    let mut expected = vec![Task::Integrate(a), Task::Integrate(c), Task::Damp(a), Task::Damp(c)];
    expected.extend(round.clone());
    expected.extend(round);
    expected.extend(walls(a));
    expected.extend(walls(c));
    assert_eq!(e.plan_step(), expected);
    assert_eq!(e.dynamic_bodies(), vec![a, c]);
}

#[test]
fn without_walls_no_body_is_held_against_them() {
    let mut e = ConstraintPhysicsEngine::new();
    dynamic(&mut e);
    e.set_iterations(1);
    assert_eq!(
        e.plan_step(),
        vec![Task::Integrate(0), Task::Damp(0), Task::ResolveContacts]
    );
}

#[test]
fn every_pair_is_tested_once_in_every_round() {
    let mut e = ConstraintPhysicsEngine::new();
    for _ in 0..4 {
        fixed(&mut e);
    }
    e.set_iterations(3);
    let pairs = vec![
        Task::DetectPair(0, 1),
        Task::DetectPair(0, 2),
        Task::DetectPair(0, 3),
        Task::DetectPair(1, 2),
        Task::DetectPair(1, 3),
        Task::DetectPair(2, 3),
        Task::ResolveContacts,
    ];
    let mut expected = Vec::new();
    for _ in 0..3 {
        expected.extend(pairs.clone());
    }
    assert_eq!(e.plan_step(), expected);
    assert_eq!(e.dynamic_bodies(), Vec::new());
}

#[test]
fn rounds_follow_the_iteration_count() {
    let mut e = ConstraintPhysicsEngine::new();
    dynamic(&mut e);
    dynamic(&mut e);
    e.add_distance_constraint(0, 1, s(1.0), s(1.0));
    assert_eq!(e.plan_step().len(), 4 + 5 * 3);
    e.set_iterations(40);
    let plan = e.plan_step();
    assert_eq!(plan.len(), 4 + 40 * 3);
    assert_eq!(plan.iter().filter(|t| **t == Task::SolveLink(0)).count(), 40);
    assert_eq!(plan.iter().filter(|t| **t == Task::DetectPair(0, 1)).count(), 40);
    assert_eq!(plan.iter().filter(|t| **t == Task::ResolveContacts).count(), 40);
    assert_eq!(plan[4..7], [Task::SolveLink(0), Task::DetectPair(0, 1), Task::ResolveContacts]);
}

#[test]
fn a_dragged_link_is_solved_with_the_others() {
    let mut e = ConstraintPhysicsEngine::new();
    dynamic(&mut e);
    e.set_iterations(1);
    let at = physics_engine::vector::Vec2::zero();
    assert_eq!(e.start_mouse_drag(s(0.0), s(0.0), &vec![at]), 0);
    assert_eq!(
        e.plan_step(),
        vec![Task::Integrate(0), Task::Damp(0), Task::SolveLink(0), Task::ResolveContacts]
    );
    e.end_mouse_drag();
    assert_eq!(e.plan_step(), vec![Task::Integrate(0), Task::Damp(0), Task::ResolveContacts]);
}
