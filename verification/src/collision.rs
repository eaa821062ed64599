//! The separating-axis test on the projections of two boxes, and the choice
//! of the contact point among their corners.

use vstd::prelude::*;
use crate::scalar::{Scalar, MAX_BITS};
use crate::vector::Vec2;

verus! {

/// The encoding of the most negative finite number.
pub const LOWEST_BITS: u64 = 0xFFEF_FFFF_FFFF_FFFF;

/// Two boxes seen along one axis: the interval that each covers on it, and
/// the length by which the two intervals overlap.
#[derive(Clone, Copy, Debug, PartialEq, Eq, Structural)]
pub struct AxisTest {
    pub axis: Vec2,
    pub min_a: Scalar,
    pub max_a: Scalar,
    pub min_b: Scalar,
    pub max_b: Scalar,
    pub overlap: Scalar,
}

impl AxisTest {
    /// The two intervals do not meet: one ends before the other begins.
    pub open spec fn apart(self) -> bool {
        self.max_a.less(self.min_b) || self.max_b.less(self.min_a)
    }

    pub fn separated(&self) -> (r: bool)
        ensures
            r == self.apart(),
    {
        self.max_a.lt(self.min_b) || self.max_b.lt(self.min_a)
    }
}

/// The least of the first `n` of `values`, taken as `lesser` takes it.
pub open spec fn lowest(values: Seq<Scalar>, n: nat) -> Scalar
    recommends
        0 < n <= values.len(),
    decreases n,
{
    if n <= 1 {
        values[0]
    } else {
        lowest(values, (n - 1) as nat).lesser(values[n - 1])
    }
}

/// The greatest of the first `n` of `values`, taken as `greater` takes it.
pub open spec fn highest(values: Seq<Scalar>, n: nat) -> Scalar
    recommends
        0 < n <= values.len(),
    decreases n,
{
    if n <= 1 {
        values[0]
    } else {
        highest(values, (n - 1) as nat).greater(values[n - 1])
    }
}

/// The interval that a box covers on an axis, from the projections of its
/// corners on that axis.
pub fn project_onto_axis(projections: &Vec<Scalar>) -> (r: (Scalar, Scalar))
    requires
        projections@.len() > 0,
    ensures
        r.0 == lowest(projections@, projections@.len()),
        r.1 == highest(projections@, projections@.len()),
{
    let mut min = projections[0];
    let mut max = min;
    let mut k: usize = 1;
    while k < projections.len()
        invariant
            1 <= k <= projections.len(),
            min == lowest(projections@, k as nat),
            max == highest(projections@, k as nat),
        decreases projections.len() - k,
    {
        min = min.min(projections[k]);
        max = max.max(projections[k]);
        k += 1;
    }
    (min, max)
}

/// The interval reaches from the least projection to the greatest: both
/// ends are projections, no projection lies outside them, and an end is a
/// NaN only where every projection is one.
pub proof fn lemma_interval_spans(values: Seq<Scalar>, n: nat)
    requires
        0 < n <= values.len(),
    ensures
        exists|i: int| 0 <= i < n && lowest(values, n) == #[trigger] values[i],
        exists|i: int| 0 <= i < n && highest(values, n) == #[trigger] values[i],
        forall|k: int| 0 <= k < n ==> !(#[trigger] values[k]).less(lowest(values, n)),
        forall|k: int| 0 <= k < n ==> !highest(values, n).less(#[trigger] values[k]),
        lowest(values, n).nan() || highest(values, n).nan() ==> forall|k: int|
            0 <= k < n ==> (#[trigger] values[k]).nan(),
    decreases n,
{
    if n <= 1 {
        assert(lowest(values, n) == values[0]);
        assert(highest(values, n) == values[0]);
    } else {
        lemma_interval_spans(values, (n - 1) as nat);
        let low = lowest(values, (n - 1) as nat);
        let high = highest(values, (n - 1) as nat);
        let i = choose|i: int| 0 <= i < n - 1 && low == #[trigger] values[i];
        let j = choose|j: int| 0 <= j < n - 1 && high == #[trigger] values[j];
        if lowest(values, n) == low {
            assert(lowest(values, n) == values[i]);
        } else {
            assert(lowest(values, n) == values[n - 1]);
        }
        if highest(values, n) == high {
            assert(highest(values, n) == values[j]);
        } else {
            assert(highest(values, n) == values[n - 1]);
        }
        assert(low.nan() <==> high.nan()) by {
            if low.nan() || high.nan() {
                assert(values[i].nan() && values[j].nan());
            }
        }
    }
}

/// The outcome of a test that found no separating axis.
#[derive(Clone, Copy, Debug, PartialEq, Eq, Structural)]
pub struct Overlap {
    /// The axis of least overlap, not yet turned towards either box.
    pub normal: Vec2,
    /// The overlap along that axis.
    pub penetration: Scalar,
}

/// Some axis shows the two boxes apart.
pub open spec fn any_apart(tests: Seq<AxisTest>) -> bool {
    exists|k: int| 0 <= k < tests.len() && (#[trigger] tests[k]).apart()
}

/// No overlap among `tests` is smaller than `bound`.
pub open spec fn none_below(tests: Seq<AxisTest>, bound: Scalar) -> bool {
    forall|k: int| 0 <= k < tests.len() ==> !(#[trigger] tests[k]).overlap.less(bound)
}

/// `tests[i]` has the least overlap of all, that overlap is smaller than
/// `bound`, and no earlier test has an equal one.
pub open spec fn least_at(tests: Seq<AxisTest>, bound: Scalar, i: int) -> bool {
    &&& 0 <= i < tests.len()
    &&& tests[i].overlap.less(bound)
    &&& forall|k: int|
        0 <= k < tests.len() ==> !(#[trigger] tests[k]).overlap.less(tests[i].overlap)
    &&& forall|k: int| 0 <= k < i ==> !(#[trigger] tests[k]).overlap.same(tests[i].overlap)
}

/// What the test answers where no axis separates: the first axis of least
/// overlap with its overlap, or, where no overlap is below the largest
/// finite number, the zero vector with that number.
pub open spec fn least_overlap(tests: Seq<AxisTest>, found: Overlap) -> bool {
    let bound = Scalar::encoded(MAX_BITS);
    ||| none_below(tests, bound) && found.normal == (Vec2::origin()) && found.penetration == bound
    ||| exists|i: int| #[trigger]
        least_at(tests, bound, i) && found.normal == tests[i].axis && found.penetration
            == tests[i].overlap
}

/// The separating-axis test over the candidate axes, taken in order.
///
/// Where some axis shows the boxes apart they do not collide. Otherwise the
/// answer is the axis of least overlap; of several equal ones, the first.
pub fn check_collision_sat(tests: &Vec<AxisTest>) -> (r: Option<Overlap>)
    ensures
        r is None <==> any_apart(tests@),
        r matches Some(found) ==> least_overlap(tests@, found),
{
    let mut best = Overlap { normal: Vec2::zero(), penetration: Scalar::max_value() };
    let ghost mut at: int = -1;
    let mut k: usize = 0;
    while k < tests.len()
        invariant
            k <= tests.len(),
            -1 <= at < k,
            forall|j: int| 0 <= j < k ==> !(#[trigger] tests@[j]).apart(),
            forall|j: int| 0 <= j < k ==> !(#[trigger] tests@[j]).overlap.less(best.penetration),
            at == -1 ==> best.normal == Vec2::origin() && best.penetration == Scalar::encoded(
                MAX_BITS,
            ),
            at != -1 ==> best.normal == tests@[at].axis && best.penetration == tests@[at].overlap
                && best.penetration.less(Scalar::encoded(MAX_BITS)),
            forall|j: int| 0 <= j < at ==> !(#[trigger] tests@[j]).overlap.same(best.penetration),
        decreases tests.len() - k,
    {
        let test = tests[k];
        if test.separated() {
            return None;
        }
        if test.overlap.lt(best.penetration) {
            best = Overlap { normal: test.axis, penetration: test.overlap };
            proof {
                at = k as int;
            }
        }
        k += 1;
    }
    proof {
        if at != -1 {
            assert(least_at(tests@, Scalar::encoded(MAX_BITS), at));
        }
    }
    Some(best)
}

/// The normal turned so that it points from the first box towards the
/// second. `toward` is the normal's projection on the line from the first
/// centre to the second: the normal is reversed where that is negative.
pub fn orient_normal(normal: Vec2, toward: Scalar) -> (r: Vec2)
    ensures
        r == if toward.less(Scalar::encoded(0)) {
            normal.reversed()
        } else {
            normal
        },
{
    if toward.lt(Scalar::zero()) {
        normal.reverse()
    } else {
        normal
    }
}

/// No depth among `depths` is greater than `bound`.
pub open spec fn none_above(depths: Seq<Scalar>, bound: Scalar) -> bool {
    forall|k: int| 0 <= k < depths.len() ==> !bound.less(#[trigger] depths[k])
}

/// `depths[i]` is the greatest depth of all, it is greater than `bound`, and
/// no earlier depth equals it.
pub open spec fn deepest_at(depths: Seq<Scalar>, bound: Scalar, i: int) -> bool {
    &&& 0 <= i < depths.len()
    &&& bound.less(depths[i])
    &&& forall|k: int| 0 <= k < depths.len() ==> !depths[i].less(#[trigger] depths[k])
    &&& forall|k: int| 0 <= k < i ==> !(#[trigger] depths[k]).same(depths[i])
}

/// The index of the corner that reaches deepest: the first of the greatest
/// depth, or the first corner of all where no depth exceeds the most
/// negative finite number.
pub fn deepest_corner(depths: &Vec<Scalar>) -> (r: usize)
    ensures
        deepest_at(depths@, Scalar::encoded(LOWEST_BITS), r as int) || (r == 0 && none_above(
            depths@,
            Scalar::encoded(LOWEST_BITS),
        )),
{
    let mut best: usize = 0;
    let mut depth = Scalar::from_bits(LOWEST_BITS);
    let ghost mut found = false;
    let mut k: usize = 0;
    while k < depths.len()
        invariant
            k <= depths.len(),
            forall|j: int| 0 <= j < k ==> !depth.less(#[trigger] depths@[j]),
            !found ==> best == 0 && depth == Scalar::encoded(LOWEST_BITS),
            found ==> best < k && depth == depths@[best as int] && Scalar::encoded(
                LOWEST_BITS,
            ).less(depth),
            forall|j: int| 0 <= j < best ==> !(#[trigger] depths@[j]).same(depth),
        decreases depths.len() - k,
    {
        if depths[k].gt(depth) {
            best = k;
            depth = depths[k];
            proof {
                found = true;
            }
        }
        k += 1;
    }
    best
}

/// The contact point of two overlapping boxes: of their corners, the one
/// that `deepest_corner` picks by the depths.
pub fn find_contact_point(corners: &Vec<Vec2>, depths: &Vec<Scalar>) -> (r: Vec2)
    requires
        corners@.len() == depths@.len(),
        corners@.len() > 0,
    ensures
        exists|i: int|
            0 <= i < corners@.len() && r == corners@[i] && (deepest_at(
                depths@,
                Scalar::encoded(LOWEST_BITS),
                i,
            ) || (i == 0 && none_above(depths@, Scalar::encoded(LOWEST_BITS)))),
{
    let i = deepest_corner(depths);
    corners[i]
}

/// Boxes that some axis shows apart do not collide, whatever the other axes
/// show and however the boxes are turned.
pub proof fn lemma_apart_means_no_contact(tests: Seq<AxisTest>, k: int)
    requires
        0 <= k < tests.len(),
        tests[k].max_a.less(tests[k].min_b) || tests[k].max_b.less(tests[k].min_a),
    ensures
        any_apart(tests),
{
    assert(tests[k].apart());
}

/// The answer of the test is determined: two outcomes that both fit the same
/// tests are the same.
pub proof fn lemma_least_overlap_unique(tests: Seq<AxisTest>, p: Overlap, q: Overlap)
    requires
        least_overlap(tests, p),
        least_overlap(tests, q),
    ensures
        p == q,
{
    let bound = Scalar::encoded(MAX_BITS);
    if none_below(tests, bound) {
        if exists|i: int| #[trigger] least_at(tests, bound, i) {
            let i = choose|i: int| #[trigger] least_at(tests, bound, i);
            assert(tests[i].overlap.less(bound));
        }
    } else {
        let i = choose|i: int| #[trigger]
            least_at(tests, bound, i) && p.normal == tests[i].axis && p.penetration
                == tests[i].overlap;
        let j = choose|j: int| #[trigger]
            least_at(tests, bound, j) && q.normal == tests[j].axis && q.penetration
                == tests[j].overlap;
        assert(!tests[i].overlap.less(tests[j].overlap));
        assert(!tests[j].overlap.less(tests[i].overlap));
        assert(tests[i].overlap.same(tests[j].overlap));
        assert(i == j);
    }
}

/// An oriented normal does not point back at the first box: its projection
/// on the line between the centres, which is that of the normal handed in,
/// negated where the normal was reversed, is not negative.
pub proof fn lemma_oriented_normal_faces_second(toward: Scalar)
    ensures
        !(if toward.less(Scalar::encoded(0)) {
            toward.negated()
        } else {
            toward
        }).less(Scalar::encoded(0)),
{
}

/// Where no overlap handed to the test is negative, neither is the
/// penetration that it answers.
pub proof fn lemma_penetration_not_negative(tests: Seq<AxisTest>, found: Overlap)
    requires
        forall|k: int| 0 <= k < tests.len() ==> (#[trigger] tests[k]).overlap.rank() >= 0,
        least_overlap(tests, found),
    ensures
        found.penetration.rank() >= 0,
{
}

} // verus!
