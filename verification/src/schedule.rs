//! The order of the work of one step.

use vstd::prelude::*;
use crate::body::RigidBody;
use crate::engine::{ConstraintPhysicsEngine, EngineState};
use crate::solver::Wall;

verus! {

/// One piece of the work of a step.
#[derive(Clone, Copy, Debug, PartialEq, Eq, Structural)]
pub enum Task {
    /// Let gravity act on a body's velocity, then move the body by its
    /// velocities.
    Integrate(usize),
    /// Damp a body's velocities.
    Damp(usize),
    /// Solve the link at this place of the list.
    SolveLink(usize),
    /// Test two bodies for overlap and note the contact, if there is one.
    DetectPair(usize, usize),
    /// Resolve the contacts noted since the last resolution, in the order
    /// in which they were noted.
    ResolveContacts,
    /// Push a body back where it has passed a wall.
    ResolveWall(usize, Wall),
}

impl Task {
    /// Whether a task can be carried out on an engine in this state: it
    /// names a body that is not static, a link of the list, or two bodies of
    /// the registry of which the first has the smaller index.
    pub open spec fn fits(self, state: EngineState) -> bool {
        match self {
            Task::Integrate(i) => i < state.bodies.len() && !state.bodies[i as int].fixed(),
            Task::Damp(i) => i < state.bodies.len() && !state.bodies[i as int].fixed(),
            Task::SolveLink(k) => k < state.constraints.len(),
            Task::DetectPair(i, j) => i < j < state.bodies.len(),
            Task::ResolveContacts => true,
            Task::ResolveWall(i, _) => i < state.bodies.len() && !state.bodies[i as int].fixed(),
        }
    }
}

/// The indices, in ascending order, of those of the first `n` bodies that
/// are not static.
pub open spec fn dynamic_below(bodies: Seq<RigidBody>, n: nat) -> Seq<usize>
    recommends
        n <= bodies.len(),
    decreases n,
{
    if n == 0 {
        Seq::empty()
    } else {
        let rest = dynamic_below(bodies, (n - 1) as nat);
        if bodies[n - 1].fixed() {
            rest
        } else {
            rest.push((n - 1) as usize)
        }
    }
}

/// One integration for each of `moving`.
pub open spec fn integrations(moving: Seq<usize>) -> Seq<Task> {
    Seq::new(moving.len(), |k: int| Task::Integrate(moving[k]))
}

/// One damping for each of `moving`.
pub open spec fn dampings(moving: Seq<usize>) -> Seq<Task> {
    Seq::new(moving.len(), |k: int| Task::Damp(moving[k]))
}

/// The links of a list of `count`, first to last.
pub open spec fn link_passes(count: nat) -> Seq<Task> {
    Seq::new(count, |k: int| Task::SolveLink(k as usize))
}

/// The tests of body `i` against each later body of `count`.
pub open spec fn pair_row(i: nat, count: nat) -> Seq<Task> {
    Seq::new(
        if count > i {
            (count - i - 1) as nat
        } else {
            0
        },
        |k: int| Task::DetectPair(i as usize, (i + 1 + k) as usize),
    )
}

/// The tests of each of the first `rows` bodies against each later body of
/// `count`: every pair once, ordered by the first index and then by the
/// second.
pub open spec fn pair_tests(rows: nat, count: nat) -> Seq<Task>
    decreases rows,
{
    if rows == 0 {
        Seq::empty()
    } else {
        pair_tests((rows - 1) as nat, count) + pair_row((rows - 1) as nat, count)
    }
}

/// One solver round: every link once, then every pair of bodies tested
/// afresh, then the contacts found resolved.
pub open spec fn round(bodies: nat, links: nat) -> Seq<Task> {
    link_passes(links) + pair_tests(bodies, bodies).push(Task::ResolveContacts)
}

/// `count` rounds, one after another.
pub open spec fn rounds(count: nat, bodies: nat, links: nat) -> Seq<Task>
    decreases count,
{
    if count == 0 {
        Seq::empty()
    } else {
        rounds((count - 1) as nat, bodies, links) + round(bodies, links)
    }
}

/// The four walls for one body, in the order in which they are tried.
pub open spec fn wall_row(i: usize) -> Seq<Task> {
    seq![
        Task::ResolveWall(i, Wall::Left),
        Task::ResolveWall(i, Wall::Right),
        Task::ResolveWall(i, Wall::Top),
        Task::ResolveWall(i, Wall::Bottom),
    ]
}

/// The four walls for each of the first `n` of `moving`.
pub open spec fn wall_passes(moving: Seq<usize>, n: nat) -> Seq<Task>
    recommends
        n <= moving.len(),
    decreases n,
{
    if n == 0 {
        Seq::empty()
    } else {
        wall_passes(moving, (n - 1) as nat) + wall_row(moving[n - 1])
    }
}

impl EngineState {
    /// The bodies that a step moves.
    pub open spec fn moving(self) -> Seq<usize> {
        dynamic_below(self.bodies, self.bodies.len())
    }

    /// The work of one step, in order: every body that is not static is
    /// integrated, then damped; then come the solver rounds; last, where
    /// walls are set, every body that is not static is held against the four
    /// walls, once.
    pub open spec fn step_plan(self) -> Seq<Task> {
        integrations(self.moving()) + dampings(self.moving()) + rounds(
            self.iterations as nat,
            self.bodies.len(),
            self.constraints.len(),
        ) + if self.bounds is Some {
            wall_passes(self.moving(), self.moving().len())
        } else {
            Seq::empty()
        }
    }
}

proof fn lemma_dynamic_below(bodies: Seq<RigidBody>, n: nat)
    requires
        n <= bodies.len() <= usize::MAX,
    ensures
        forall|k: int|
            0 <= k < dynamic_below(bodies, n).len() ==> {
                let i = #[trigger] dynamic_below(bodies, n)[k];
                i < n && !bodies[i as int].fixed()
            },
        forall|i: int|
            0 <= i < n && !bodies[i].fixed() ==> dynamic_below(bodies, n).contains(i as usize),
        forall|k: int, l: int|
            0 <= k < l < dynamic_below(bodies, n).len() ==> dynamic_below(bodies, n)[k]
                < dynamic_below(bodies, n)[l],
    decreases n,
{
    if n > 0 {
        let rest = dynamic_below(bodies, (n - 1) as nat);
        lemma_dynamic_below(bodies, (n - 1) as nat);
        let all = dynamic_below(bodies, n);
        assert forall|i: int| 0 <= i < n && !bodies[i].fixed() implies all.contains(
            i as usize,
        ) by {
            if i < n - 1 {
                let k = choose|k: int| 0 <= k < rest.len() && rest[k] == i as usize;
                assert(all[k] == i as usize);
            } else {
                assert(all[all.len() - 1] == i as usize);
            }
        }
    }
}

proof fn lemma_pair_tests(rows: nat, count: nat)
    requires
        rows <= count <= usize::MAX,
    ensures
        forall|k: int|
            0 <= k < pair_tests(rows, count).len() ==> (#[trigger] pair_tests(
                rows,
                count,
            )[k] matches Task::DetectPair(i, j) && i < rows && i < j < count),
    decreases rows,
{
    if rows > 0 {
        lemma_pair_tests((rows - 1) as nat, count);
    }
}

proof fn lemma_round(state: EngineState)
    requires
        state.bodies.len() <= usize::MAX,
        state.constraints.len() <= usize::MAX,
    ensures
        forall|k: int|
            0 <= k < round(state.bodies.len(), state.constraints.len()).len() ==> (#[trigger] round(
                state.bodies.len(),
                state.constraints.len(),
            )[k]).fits(state),
{
    let links = link_passes(state.constraints.len());
    let pairs = pair_tests(state.bodies.len(), state.bodies.len());
    let all = round(state.bodies.len(), state.constraints.len());
    lemma_pair_tests(state.bodies.len(), state.bodies.len());
    assert forall|k: int| 0 <= k < all.len() implies (#[trigger] all[k]).fits(state) by {
        if k < links.len() {
            assert(all[k] == links[k]);
        } else if k < links.len() + pairs.len() {
            assert(all[k] == pairs[k - links.len()]);
        } else {
            assert(all[k] == Task::ResolveContacts);
        }
    }
}

proof fn lemma_rounds(count: nat, state: EngineState)
    requires
        state.bodies.len() <= usize::MAX,
        state.constraints.len() <= usize::MAX,
    ensures
        forall|k: int|
            0 <= k < rounds(count, state.bodies.len(), state.constraints.len()).len() ==> (
            #[trigger] rounds(count, state.bodies.len(), state.constraints.len())[k]).fits(state),
    decreases count,
{
    if count > 0 {
        lemma_rounds((count - 1) as nat, state);
        lemma_round(state);
        let earlier = rounds((count - 1) as nat, state.bodies.len(), state.constraints.len());
        let last = round(state.bodies.len(), state.constraints.len());
        let all = rounds(count, state.bodies.len(), state.constraints.len());
        assert forall|k: int| 0 <= k < all.len() implies (#[trigger] all[k]).fits(state) by {
            if k < earlier.len() {
                assert(all[k] == earlier[k]);
            } else {
                assert(all[k] == last[k - earlier.len()]);
            }
        }
    }
}

proof fn lemma_wall_passes(state: EngineState, n: nat)
    requires
        state.bodies.len() <= usize::MAX,
        n <= state.moving().len(),
    ensures
        forall|k: int|
            0 <= k < wall_passes(state.moving(), n).len() ==> (#[trigger] wall_passes(
                state.moving(),
                n,
            )[k]).fits(state),
    decreases n,
{
    lemma_dynamic_below(state.bodies, state.bodies.len());
    if n > 0 {
        lemma_wall_passes(state, (n - 1) as nat);
        let i = state.moving()[n - 1];
        assert(i < state.bodies.len() && !state.bodies[i as int].fixed());
        let earlier = wall_passes(state.moving(), (n - 1) as nat);
        let last = wall_row(i);
        let all = wall_passes(state.moving(), n);
        assert forall|k: int| 0 <= k < all.len() implies (#[trigger] all[k]).fits(state) by {
            if k < earlier.len() {
                assert(all[k] == earlier[k]);
            } else {
                assert(all[k] == last[k - earlier.len()]);
            }
        }
    }
}

/// A round tests every pair of bodies once: each pair, smaller index first,
/// is among the tests, and there are as many tests as there are pairs.
pub proof fn lemma_every_pair_once(rows: nat, count: nat)
    requires
        rows <= count <= usize::MAX,
    ensures
        2 * pair_tests(rows, count).len() == rows * (2 * count - rows - 1),
        forall|i: int, j: int|
            0 <= i < rows && i < j < count ==> #[trigger] pair_tests(rows, count).contains(
                Task::DetectPair(i as usize, j as usize),
            ),
    decreases rows,
{
    if rows > 0 {
        let earlier = pair_tests((rows - 1) as nat, count);
        let row = pair_row((rows - 1) as nat, count);
        let all = pair_tests(rows, count);
        lemma_every_pair_once((rows - 1) as nat, count);
        assert(2 * all.len() == rows * (2 * count - rows - 1)) by (nonlinear_arith)
            requires
                all.len() == earlier.len() + (count - rows),
                2 * earlier.len() == (rows - 1) * (2 * count - (rows - 1) - 1),
        ;
        assert forall|i: int, j: int| 0 <= i < rows && i < j < count implies #[trigger] all.contains(
            Task::DetectPair(i as usize, j as usize),
        ) by {
            let pair = Task::DetectPair(i as usize, j as usize);
            if i < rows - 1 {
                assert(pair_tests((rows - 1) as nat, count).contains(
                    Task::DetectPair(i as usize, j as usize),
                ));
                let k = choose|k: int| 0 <= k < earlier.len() && earlier[k] == pair;
                assert(all[k] == pair);
            } else {
                assert(row[j - i - 1] == pair);
                assert(all[earlier.len() + (j - i - 1)] == pair);
            }
        }
    }
}

/// Every task of a step can be carried out: it names bodies and links that
/// the engine holds, no pair of bodies is tested twice or against itself,
/// and no task that moves a body names a static one.
pub proof fn lemma_plan_fits(state: EngineState)
    requires
        state.bodies.len() <= usize::MAX,
        state.constraints.len() <= usize::MAX,
    ensures
        forall|k: int|
            0 <= k < state.step_plan().len() ==> (#[trigger] state.step_plan()[k]).fits(state),
{
    lemma_dynamic_below(state.bodies, state.bodies.len());
    lemma_rounds(state.iterations as nat, state);
    lemma_wall_passes(state, state.moving().len());
    let first = integrations(state.moving());
    let second = dampings(state.moving());
    let third = rounds(state.iterations as nat, state.bodies.len(), state.constraints.len());
    let fourth = if state.bounds is Some {
        wall_passes(state.moving(), state.moving().len())
    } else {
        Seq::empty()
    };
    let all = state.step_plan();
    assert(all == first + second + third + fourth);
    assert forall|k: int| 0 <= k < all.len() implies (#[trigger] all[k]).fits(state) by {
        if k < first.len() {
            assert(all[k] == first[k]);
        } else if k < first.len() + second.len() {
            assert(all[k] == second[k - first.len()]);
        } else if k < first.len() + second.len() + third.len() {
            assert(all[k] == third[k - first.len() - second.len()]);
        } else {
            assert(all[k] == fourth[k - first.len() - second.len() - third.len()]);
        }
    }
}

/// The bodies that a step moves are the bodies that are not static, each
/// once and in the order of the registry.
pub proof fn lemma_moving_bodies(state: EngineState)
    requires
        state.bodies.len() <= usize::MAX,
    ensures
        forall|i: int|
            0 <= i < state.bodies.len() ==> (state.moving().contains(i as usize)
                <==> !state.bodies[i].fixed()),
        forall|k: int, l: int|
            0 <= k < l < state.moving().len() ==> state.moving()[k] < state.moving()[l],
{
    lemma_dynamic_below(state.bodies, state.bodies.len());
    assert forall|i: int| 0 <= i < state.bodies.len() && state.moving().contains(
        i as usize,
    ) implies !state.bodies[i].fixed() by {
        let k = choose|k: int| 0 <= k < state.moving().len() && state.moving()[k] == i as usize;
        assert(!state.bodies[state.moving()[k] as int].fixed());
    }
}

fn append(tasks: &mut Vec<Task>, more: &Vec<Task>)
    ensures
        final(tasks)@ == old(tasks)@ + more@,
{
    let mut k: usize = 0;
    while k < more.len()
        invariant
            k <= more.len(),
            tasks@ == old(tasks)@ + more@.take(k as int),
        decreases more.len() - k,
    {
        tasks.push(more[k]);
        proof {
            assert(more@.take(k + 1) =~= more@.take(k as int).push(more@[k as int]));
            assert(tasks@ =~= old(tasks)@ + more@.take(k + 1));
        }
        k += 1;
    }
    proof {
        assert(more@.take(k as int) =~= more@);
    }
}

fn round_tasks(bodies: usize, links: usize) -> (tasks: Vec<Task>)
    ensures
        tasks@ == round(bodies as nat, links as nat),
{
    let mut tasks: Vec<Task> = Vec::new();
    let mut k: usize = 0;
    while k < links
        invariant
            k <= links,
            tasks@ == link_passes(k as nat),
        decreases links - k,
    {
        tasks.push(Task::SolveLink(k));
        proof {
            assert(tasks@ =~= link_passes((k + 1) as nat));
        }
        k += 1;
    }
    let mut i: usize = 0;
    while i < bodies
        invariant
            i <= bodies,
            tasks@ == link_passes(links as nat) + pair_tests(i as nat, bodies as nat),
        decreases bodies - i,
    {
        let ghost before = tasks@;
        let mut j: usize = i + 1;
        while j < bodies
            invariant
                i < j <= bodies,
                tasks@ == before + pair_row(i as nat, bodies as nat).take(j - i - 1),
            decreases bodies - j,
        {
            tasks.push(Task::DetectPair(i, j));
            proof {
                let row = pair_row(i as nat, bodies as nat);
                assert(row.take(j - i) =~= row.take(j - i - 1).push(row[j - i - 1]));
                assert(tasks@ =~= before + row.take(j - i));
            }
            j += 1;
        }
        proof {
            let row = pair_row(i as nat, bodies as nat);
            assert(row.take(bodies - i - 1) =~= row);
            assert(tasks@ =~= link_passes(links as nat) + pair_tests(
                (i + 1) as nat,
                bodies as nat,
            ));
        }
        i += 1;
    }
    tasks.push(Task::ResolveContacts);
    proof {
        assert(tasks@ =~= round(bodies as nat, links as nat));
    }
    tasks
}

impl ConstraintPhysicsEngine {
    /// The bodies that a step moves: the indices of the bodies that are not
    /// static, in ascending order.
    pub fn dynamic_bodies(&self) -> (moving: Vec<usize>)
        ensures
            moving@ == self@.moving(),
    {
        let count: usize = self.get_body_count();
        let mut moving: Vec<usize> = Vec::new();
        let mut i: usize = 0;
        while i < count
            invariant
                i <= count,
                count == self@.bodies.len(),
                moving@ == dynamic_below(self@.bodies, i as nat),
            decreases count - i,
        {
            if !self.body(i).is_static() {
                moving.push(i);
            }
            i += 1;
        }
        moving
    }

    /// The work of one step, in the order in which it is to be done.
    pub fn plan_step(&self) -> (tasks: Vec<Task>)
        ensures
            tasks@ == self@.step_plan(),
    {
        let moving = self.dynamic_bodies();
        let mut tasks: Vec<Task> = Vec::new();
        let mut k: usize = 0;
        while k < moving.len()
            invariant
                k <= moving.len(),
                tasks@ == integrations(moving@.take(k as int)),
            decreases moving.len() - k,
        {
            tasks.push(Task::Integrate(moving[k]));
            proof {
                assert(tasks@ =~= integrations(moving@.take(k + 1)));
            }
            k += 1;
        }
        proof {
            assert(moving@.take(k as int) =~= moving@);
        }
        k = 0;
        while k < moving.len()
            invariant
                k <= moving.len(),
                tasks@ == integrations(moving@) + dampings(moving@.take(k as int)),
            decreases moving.len() - k,
        {
            tasks.push(Task::Damp(moving[k]));
            proof {
                assert(tasks@ =~= integrations(moving@) + dampings(moving@.take(k + 1)));
            }
            k += 1;
        }
        proof {
            assert(moving@.take(k as int) =~= moving@);
        }
        let bodies: usize = self.get_body_count();
        let links: usize = self.constraint_count();
        let one_round = round_tasks(bodies, links);
        let iterations: usize = self.iterations();
        let mut r: usize = 0;
        while r < iterations
            invariant
                r <= iterations,
                one_round@ == round(bodies as nat, links as nat),
                tasks@ == integrations(moving@) + dampings(moving@) + rounds(
                    r as nat,
                    bodies as nat,
                    links as nat,
                ),
            decreases iterations - r,
        {
            append(&mut tasks, &one_round);
            proof {
                assert(tasks@ =~= integrations(moving@) + dampings(moving@) + rounds(
                    (r + 1) as nat,
                    bodies as nat,
                    links as nat,
                ));
            }
            r += 1;
        }
        if self.bounds().is_some() {
            let ghost before = tasks@;
            k = 0;
            while k < moving.len()
                invariant
                    k <= moving.len(),
                    tasks@ == before + wall_passes(moving@, k as nat),
                decreases moving.len() - k,
            {
                let i: usize = moving[k];
                tasks.push(Task::ResolveWall(i, Wall::Left));
                tasks.push(Task::ResolveWall(i, Wall::Right));
                tasks.push(Task::ResolveWall(i, Wall::Top));
                tasks.push(Task::ResolveWall(i, Wall::Bottom));
                proof {
                    assert(tasks@ =~= before + wall_passes(moving@, (k + 1) as nat));
                }
                k += 1;
            }
        } else {
            proof {
                assert(tasks@ =~= tasks@ + Seq::<Task>::empty());
            }
        }
        tasks
    }
}

} // verus!
