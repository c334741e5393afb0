//! Polygons: an exterior ring and a sequence of interior rings (holes).
//!
//! A polygon is valid when
//! - every ring keeps at least four points once consecutive duplicates are
//!   dropped (three distinct vertices plus the closing point), carries only
//!   finite coordinates, and is simple (no self-intersection beyond
//!   consecutive segments sharing their designed join point);
//! - every interior ring is topologically contained in the exterior ring
//!   (touching it is allowed), and touches it at most in isolated points,
//!   never along a line;
//! - interior rings do not share interior area, and touch each other at
//!   most in isolated points, never along a line.
//!
//! The findings run interiors first, exterior last, and for every ring the
//! per-ring problems come before the pairwise ones; the topological stages
//! only run when every coordinate is finite, since the underlying
//! predicates are only relied upon for finite input.

use crate::coord::{Coord, all_finite};
use crate::linestring::{
    LineString, collect_nonfinite_problems, lemma_nonfinite_raw_all_finite, nonfinite_raw,
    ring_close, rings_view,
};
use crate::predicates::{
    Dimension, hull_contains, hull_contains_ring, hull_ring_boundary_inside,
    hull_ring_relate_boundary_inside, ring_pair_relate, rings_relate,
};
use crate::utils::{
    RawProblem, check_too_few_points, distinct_count, linestring_has_self_intersection,
    ring_self_intersects,
};
use crate::{CoordinatePosition, Problem, ProblemAtPosition, ProblemPosition, RingRole, Valid};
use vstd::prelude::*;

verus! {

/// One polygon finding before its position is wrapped: the problem, the
/// ring it concerns, and the coordinate it concerns.
pub type RingRaw = (Problem, RingRole, CoordinatePosition);

/// A polygon: one exterior ring and any number of interior rings.
#[derive(Debug, Clone)]
pub struct Polygon {
    pub exterior: LineString,
    pub interiors: Vec<LineString>,
}

impl Polygon {
    /// A polygon from its rings; each ring is closed (its first coordinate
    /// appended) where it does not already end on its first coordinate.
    pub fn new(exterior: LineString, interiors: Vec<LineString>) -> (p: Polygon)
        ensures
            p.exterior@ == ring_close(exterior@),
            p.interiors@.len() == interiors@.len(),
            forall|i: int|
                0 <= i < interiors@.len() ==> p.interiors@[i]@ == ring_close(
                    #[trigger] interiors@[i]@,
                ),
    {
        let mut ext = exterior;
        ext.close();
        let mut remaining = interiors;
        let ghost orig = remaining@;
        let mut closed: Vec<LineString> = Vec::new();
        while remaining.len() > 0
            invariant
                closed@.len() + remaining@.len() == orig.len(),
                remaining@ == orig.subrange(closed@.len() as int, orig.len() as int),
                forall|i: int|
                    0 <= i < closed@.len() ==> closed@[i]@ == ring_close(#[trigger] orig[i]@),
            decreases remaining@.len(),
        {
            let ghost k = closed@.len() as int;
            let mut ls = remaining.remove(0);
            proof {
                assert(orig.subrange(k, orig.len() as int).remove(0) =~= orig.subrange(
                    k + 1,
                    orig.len() as int,
                ));
                assert(orig.subrange(k, orig.len() as int)[0] == orig[k]);
            }
            ls.close();
            closed.push(ls);
        }
        Polygon { exterior: ext, interiors: closed }
    }
}

/// The rings of the polygon in checking order: interiors first, exterior
/// last.
pub open spec fn polygon_rings(p: Polygon) -> Seq<Seq<Coord>> {
    rings_view(p.interiors@).push(p.exterior@)
}

/// The role of ring `k` of `polygon_rings`: the last ring is the exterior,
/// the others the interior rings in order.
pub open spec fn polygon_ring_role(p: Polygon, k: int) -> RingRole {
    if k == p.interiors@.len() {
        RingRole::Exterior
    } else {
        RingRole::Interior(k as usize)
    }
}

/// Every coordinate of every ring is finite.
pub open spec fn polygon_finite(p: Polygon) -> bool {
    all_finite(p.exterior@) && forall|j: int|
        0 <= j < p.interiors@.len() ==> all_finite(#[trigger] p.interiors@[j]@)
}

/// The per-ring findings: `TooFewPoints` and `SelfIntersection` for the
/// ring as a whole, then `NotFinite` per bad coordinate.
pub open spec fn ring_raw(s: Seq<Coord>) -> Seq<RawProblem> {
    (if distinct_count(s) < 4 {
        seq![(Problem::TooFewPoints, CoordinatePosition(None))]
    } else {
        Seq::<RawProblem>::empty()
    }) + (if ring_self_intersects(s) {
        seq![(Problem::SelfIntersection, CoordinatePosition(None))]
    } else {
        Seq::<RawProblem>::empty()
    }) + nonfinite_raw(s)
}

/// A ring passes its own checks: enough distinct points, simple, finite.
pub open spec fn ring_ok(s: Seq<Coord>) -> bool {
    distinct_count(s) >= 4 && !ring_self_intersects(s) && all_finite(s)
}

pub proof fn lemma_ring_raw_empty(s: Seq<Coord>)
    ensures
        ring_raw(s).len() == 0 <==> ring_ok(s),
{
    lemma_nonfinite_raw_all_finite(s);
}

/// The per-ring findings tagged with the ring's role.
pub open spec fn attach_role(raw: Seq<RawProblem>, role: RingRole) -> Seq<RingRaw> {
    raw.map_values(|rp: RawProblem| (rp.0, role, rp.1))
}

/// The per-ring findings of the first `k` rings, in ring order.
pub open spec fn rings_raw_upto(p: Polygon, k: int) -> Seq<RingRaw>
    decreases k,
{
    if k <= 0 {
        Seq::empty()
    } else {
        rings_raw_upto(p, k - 1) + attach_role(
            ring_raw(polygon_rings(p)[k - 1]),
            polygon_ring_role(p, k - 1),
        )
    }
}

pub proof fn lemma_rings_raw_upto_empty(p: Polygon, k: int)
    requires
        0 <= k <= polygon_rings(p).len(),
    ensures
        rings_raw_upto(p, k).len() == 0 <==> (forall|x: int|
            0 <= x < k ==> ring_ok(#[trigger] polygon_rings(p)[x])),
    decreases k,
{
    if k > 0 {
        lemma_rings_raw_upto_empty(p, k - 1);
        lemma_ring_raw_empty(polygon_rings(p)[k - 1]);
    }
}

/// The pairwise findings of interior ring `j` against interior ring `i`:
/// overlapping in area, and touching along a line.
pub open spec fn hole_pair_raw(p: Polygon, j: int, i: int) -> Seq<RingRaw> {
    let dims = ring_pair_relate(p.interiors@[j]@, p.interiors@[i]@);
    (if dims.0 == Dimension::TwoDimensional {
        seq![
            (
                Problem::IntersectingRingsOnAnArea,
                RingRole::Interior(j as usize),
                CoordinatePosition(None),
            ),
        ]
    } else {
        Seq::<RingRaw>::empty()
    }) + (if dims.1 == Dimension::OneDimensional {
        seq![
            (
                Problem::IntersectingRingsOnALine,
                RingRole::Interior(j as usize),
                CoordinatePosition(None),
            ),
        ]
    } else {
        Seq::<RingRaw>::empty()
    })
}

/// Interior rings `j` and `i` do not overlap in area and do not touch
/// along a line.
pub open spec fn hole_pair_ok(p: Polygon, j: int, i: int) -> bool {
    let dims = ring_pair_relate(p.interiors@[j]@, p.interiors@[i]@);
    dims.0 != Dimension::TwoDimensional && dims.1 != Dimension::OneDimensional
}

/// The pairwise findings of interior ring `j` against interior rings
/// `0..i`, skipping `j` itself.
pub open spec fn hole_pairs_upto(p: Polygon, j: int, i: int) -> Seq<RingRaw>
    decreases i,
{
    if i <= 0 {
        Seq::empty()
    } else {
        hole_pairs_upto(p, j, i - 1) + (if i - 1 == j {
            Seq::<RingRaw>::empty()
        } else {
            hole_pair_raw(p, j, i - 1)
        })
    }
}

pub proof fn lemma_hole_pairs_upto_empty(p: Polygon, j: int, i: int)
    ensures
        hole_pairs_upto(p, j, i).len() == 0 <==> (forall|x: int|
            0 <= x < i && x != j ==> #[trigger] hole_pair_ok(p, j, x)),
    decreases i,
{
    if i > 0 {
        lemma_hole_pairs_upto_empty(p, j, i - 1);
        if i - 1 != j {
            assert(hole_pair_raw(p, j, i - 1).len() == 0 <==> hole_pair_ok(p, j, i - 1));
        }
        if hole_pairs_upto(p, j, i).len() == 0 {
            assert forall|x: int| 0 <= x < i && x != j implies #[trigger] hole_pair_ok(
                p,
                j,
                x,
            ) by {
                if x == i - 1 {
                    assert(hole_pair_raw(p, j, x).len() == 0);
                }
            }
        }
    }
}

/// The topological findings of interior ring `j`: containment in the
/// exterior, touching the exterior along a line, and its pairwise checks
/// against the other interior rings.
pub open spec fn hole_raw(p: Polygon, j: int) -> Seq<RingRaw> {
    (if !hull_contains_ring(p.exterior@, p.interiors@[j]@) {
        seq![
            (
                Problem::InteriorRingNotContainedInExteriorRing,
                RingRole::Interior(j as usize),
                CoordinatePosition(None),
            ),
        ]
    } else {
        Seq::<RingRaw>::empty()
    }) + (if hull_ring_boundary_inside(p.exterior@, p.interiors@[j]@)
        == Dimension::OneDimensional {
        seq![
            (
                Problem::IntersectingRingsOnALine,
                RingRole::Interior(j as usize),
                CoordinatePosition(None),
            ),
        ]
    } else {
        Seq::<RingRaw>::empty()
    }) + hole_pairs_upto(p, j, p.interiors@.len() as int)
}

/// Interior ring `j` passes its topological checks.
pub open spec fn hole_ok(p: Polygon, j: int) -> bool {
    &&& hull_contains_ring(p.exterior@, p.interiors@[j]@)
    &&& hull_ring_boundary_inside(p.exterior@, p.interiors@[j]@) != Dimension::OneDimensional
    &&& forall|i: int| 0 <= i < p.interiors@.len() && i != j ==> #[trigger] hole_pair_ok(p, j, i)
}

pub proof fn lemma_hole_raw_empty(p: Polygon, j: int)
    ensures
        hole_raw(p, j).len() == 0 <==> hole_ok(p, j),
{
    lemma_hole_pairs_upto_empty(p, j, p.interiors@.len() as int);
}

/// The topological findings of the first `j` interior rings.
pub open spec fn holes_raw_upto(p: Polygon, j: int) -> Seq<RingRaw>
    decreases j,
{
    if j <= 0 {
        Seq::empty()
    } else {
        holes_raw_upto(p, j - 1) + hole_raw(p, j - 1)
    }
}

pub proof fn lemma_holes_raw_upto_empty(p: Polygon, j: int)
    ensures
        holes_raw_upto(p, j).len() == 0 <==> (forall|x: int|
            0 <= x < j ==> #[trigger] hole_ok(p, x)),
    decreases j,
{
    if j > 0 {
        lemma_holes_raw_upto_empty(p, j - 1);
        lemma_hole_raw_empty(p, j - 1);
    }
}

/// All the findings of the polygon: every ring's own problems, then — when
/// every coordinate is finite, which is all the geometric predicates are
/// relied upon for — the topological problems of each interior ring.
pub open spec fn polygon_raw(p: Polygon) -> Seq<RingRaw> {
    rings_raw_upto(p, polygon_rings(p).len() as int) + (if polygon_finite(p) {
        holes_raw_upto(p, p.interiors@.len() as int)
    } else {
        Seq::<RingRaw>::empty()
    })
}

/// What it means for a polygon to be valid: every ring passes its own
/// checks, and every interior ring its topological checks.
pub open spec fn polygon_spec_valid(p: Polygon) -> bool {
    &&& forall|k: int| 0 <= k < polygon_rings(p).len() ==> ring_ok(#[trigger] polygon_rings(p)[k])
    &&& forall|j: int| 0 <= j < p.interiors@.len() ==> #[trigger] hole_ok(p, j)
}

/// When every ring passes its own checks, every coordinate is finite.
pub proof fn lemma_rings_ok_finite(p: Polygon)
    requires
        forall|k: int| 0 <= k < polygon_rings(p).len() ==> ring_ok(#[trigger] polygon_rings(p)[k]),
    ensures
        polygon_finite(p),
{
    assert(polygon_rings(p)[p.interiors@.len() as int] == p.exterior@);
    assert forall|j: int| 0 <= j < p.interiors@.len() implies all_finite(
        #[trigger] p.interiors@[j]@,
    ) by {
        assert(polygon_rings(p)[j] == p.interiors@[j]@);
        assert(ring_ok(polygon_rings(p)[j]));
    }
}

/// A polygon is valid exactly when it has no findings.
pub proof fn lemma_polygon_valid_iff(p: Polygon)
    ensures
        polygon_spec_valid(p) <==> polygon_raw(p).len() == 0,
{
    let n_rings = polygon_rings(p).len() as int;
    let n_int = p.interiors@.len() as int;
    lemma_rings_raw_upto_empty(p, n_rings);
    lemma_holes_raw_upto_empty(p, n_int);
    if polygon_spec_valid(p) {
        lemma_rings_ok_finite(p);
    }
    if polygon_raw(p).len() == 0 {
        lemma_rings_ok_finite(p);
    }
}

/// The per-ring findings of one ring, as plain data.
pub fn ring_raw_problems(ls: &LineString) -> (r: Vec<RawProblem>)
    ensures
        r@ == ring_raw(ls@),
{
    let mut reason: Vec<RawProblem> = Vec::new();
    if check_too_few_points(ls, true) {
        reason.push((Problem::TooFewPoints, CoordinatePosition(None)));
    }
    if linestring_has_self_intersection(ls) {
        reason.push((Problem::SelfIntersection, CoordinatePosition(None)));
    }
    collect_nonfinite_problems(&ls.0, &mut reason);
    reason
}

/// Whether every coordinate of every ring is finite.
pub fn polygon_is_finite(p: &Polygon) -> (r: bool)
    ensures
        r == polygon_finite(*p),
{
    if !crate::utils::coords_all_finite(&p.exterior.0) {
        return false;
    }
    let n = p.interiors.len();
    let mut j: usize = 0;
    while j < n
        invariant
            0 <= j <= n,
            n == p.interiors@.len(),
            all_finite(p.exterior@),
            forall|k: int| 0 <= k < j ==> all_finite(#[trigger] p.interiors@[k]@),
        decreases n - j,
    {
        if !crate::utils::coords_all_finite(&p.interiors[j].0) {
            proof {
                assert(!all_finite(p.interiors@[j as int]@));
            }
            return false;
        }
        j = j + 1;
    }
    true
}

/// Append one ring's findings, tagged with its role.
fn push_ring_problems(ls: &LineString, role: RingRole, reason: &mut Vec<RingRaw>)
    ensures
        final(reason)@ == old(reason)@ + attach_role(ring_raw(ls@), role),
{
    let raw = ring_raw_problems(ls);
    let m = raw.len();
    let ghost base = reason@;
    let mut k: usize = 0;
    while k < m
        invariant
            0 <= k <= m,
            m == raw@.len(),
            raw@ == ring_raw(ls@),
            reason@ =~= base + raw@.subrange(0, k as int).map_values(
                |rp: RawProblem| (rp.0, role, rp.1),
            ),
        decreases m - k,
    {
        let (problem, position) = raw[k];
        reason.push((problem, role, position));
        proof {
            assert(raw@.subrange(0, k + 1).drop_last() =~= raw@.subrange(0, k as int));
            assert(raw@.subrange(0, k + 1)[k as int] == raw@[k as int]);
        }
        k = k + 1;
    }
    proof {
        assert(raw@.subrange(0, m as int) =~= raw@);
    }
}

/// All the findings of the polygon, as plain data: used both for the
/// polygon's own report and, re-labelled, for the report of an owning
/// multi-polygon.
pub fn polygon_raw_problems(p: &Polygon) -> (r: Vec<RingRaw>)
    ensures
        r@ == polygon_raw(*p),
{
    let mut reason: Vec<RingRaw> = Vec::new();
    let n_int = p.interiors.len();
    let mut k: usize = 0;
    while k < n_int
        invariant
            0 <= k <= n_int,
            n_int == p.interiors@.len(),
            reason@ == rings_raw_upto(*p, k as int),
        decreases n_int - k,
    {
        proof {
            assert(polygon_rings(*p)[k as int] == p.interiors@[k as int]@);
            assert(polygon_ring_role(*p, k as int) == RingRole::Interior(k));
        }
        push_ring_problems(&p.interiors[k], RingRole::Interior(k), &mut reason);
        k = k + 1;
    }
    proof {
        assert(polygon_rings(*p)[n_int as int] == p.exterior@);
        assert(polygon_ring_role(*p, n_int as int) == RingRole::Exterior);
    }
    push_ring_problems(&p.exterior, RingRole::Exterior, &mut reason);
    proof {
        assert(reason@ == rings_raw_upto(*p, polygon_rings(*p).len() as int));
    }
    if !polygon_is_finite(p) {
        proof {
            assert(reason@ =~= polygon_raw(*p));
        }
        return reason;
    }
    let ghost rings_part = reason@;
    let mut j: usize = 0;
    while j < n_int
        invariant
            0 <= j <= n_int,
            n_int == p.interiors@.len(),
            polygon_finite(*p),
            reason@ == rings_part + holes_raw_upto(*p, j as int),
        decreases n_int - j,
    {
        let ghost before_hole = reason@;
        if !hull_contains(&p.exterior, &p.interiors[j]) {
            reason.push(
                (
                    Problem::InteriorRingNotContainedInExteriorRing,
                    RingRole::Interior(j),
                    CoordinatePosition(None),
                ),
            );
        }
        if hull_ring_relate_boundary_inside(&p.exterior, &p.interiors[j])
            == Dimension::OneDimensional {
            reason.push(
                (
                    Problem::IntersectingRingsOnALine,
                    RingRole::Interior(j),
                    CoordinatePosition(None),
                ),
            );
        }
        let ghost before_pairs = reason@;
        let mut i: usize = 0;
        while i < n_int
            invariant
                0 <= i <= n_int,
                0 <= j < n_int,
                n_int == p.interiors@.len(),
                polygon_finite(*p),
                reason@ == before_pairs + hole_pairs_upto(*p, j as int, i as int),
            decreases n_int - i,
        {
            if i != j {
                let dims = rings_relate(&p.interiors[j], &p.interiors[i]);
                if dims.0 == Dimension::TwoDimensional {
                    reason.push(
                        (
                            Problem::IntersectingRingsOnAnArea,
                            RingRole::Interior(j),
                            CoordinatePosition(None),
                        ),
                    );
                }
                if dims.1 == Dimension::OneDimensional {
                    reason.push(
                        (
                            Problem::IntersectingRingsOnALine,
                            RingRole::Interior(j),
                            CoordinatePosition(None),
                        ),
                    );
                }
            }
            i = i + 1;
        }
        proof {
            assert(reason@ =~= before_hole + hole_raw(*p, j as int));
            assert(reason@ =~= rings_part + holes_raw_upto(*p, j + 1));
        }
        j = j + 1;
    }
    proof {
        assert(reason@ =~= polygon_raw(*p));
    }
    reason
}

/// The findings of a polygon, each at its ring and coordinate.
pub open spec fn polygon_problems(p: Polygon) -> Seq<ProblemAtPosition> {
    polygon_raw(p).map_values(
        |t: RingRaw| ProblemAtPosition(t.0, ProblemPosition::Polygon(t.1, t.2)),
    )
}

impl Valid for Polygon {
    open spec fn spec_problems(&self) -> Seq<ProblemAtPosition> {
        polygon_problems(*self)
    }

    open spec fn spec_valid(&self) -> bool {
        polygon_spec_valid(*self)
    }

    proof fn valid_iff_no_problems(&self) {
        lemma_polygon_valid_iff(*self);
    }

    fn is_valid(&self) -> (valid: bool) {
        let n_int = self.interiors.len();
        let mut k: usize = 0;
        while k < n_int
            invariant
                0 <= k <= n_int,
                n_int == self.interiors@.len(),
                forall|x: int| 0 <= x < k ==> ring_ok(#[trigger] polygon_rings(*self)[x]),
            decreases n_int - k,
        {
            proof {
                assert(polygon_rings(*self)[k as int] == self.interiors@[k as int]@);
            }
            if check_too_few_points(&self.interiors[k], true) {
                return false;
            }
            if !crate::utils::coords_all_finite(&self.interiors[k].0) {
                return false;
            }
            if linestring_has_self_intersection(&self.interiors[k]) {
                return false;
            }
            k = k + 1;
        }
        proof {
            assert(polygon_rings(*self)[n_int as int] == self.exterior@);
        }
        if check_too_few_points(&self.exterior, true) {
            return false;
        }
        if !crate::utils::coords_all_finite(&self.exterior.0) {
            return false;
        }
        if linestring_has_self_intersection(&self.exterior) {
            return false;
        }
        assert forall|x: int| 0 <= x < polygon_rings(*self).len() implies ring_ok(
            #[trigger] polygon_rings(*self)[x],
        ) by {
            if x < n_int {
                assert(polygon_rings(*self)[x] == self.interiors@[x]@);
            } else {
                assert(polygon_rings(*self)[x] == self.exterior@);
            }
        }
        proof {
            lemma_rings_ok_finite(*self);
        }
        let mut j: usize = 0;
        while j < n_int
            invariant
                0 <= j <= n_int,
                n_int == self.interiors@.len(),
                polygon_finite(*self),
                forall|x: int|
                    0 <= x < polygon_rings(*self).len() ==> ring_ok(
                        #[trigger] polygon_rings(*self)[x],
                    ),
                forall|x: int| 0 <= x < j ==> #[trigger] hole_ok(*self, x),
            decreases n_int - j,
        {
            if !hull_contains(&self.exterior, &self.interiors[j]) {
                proof {
                    assert(!hole_ok(*self, j as int));
                }
                return false;
            }
            if hull_ring_relate_boundary_inside(&self.exterior, &self.interiors[j])
                == Dimension::OneDimensional {
                proof {
                    assert(!hole_ok(*self, j as int));
                }
                return false;
            }
            let mut i: usize = 0;
            while i < n_int
                invariant
                    0 <= i <= n_int,
                    0 <= j < n_int,
                    n_int == self.interiors@.len(),
                    polygon_finite(*self),
                    hull_contains_ring(self.exterior@, self.interiors@[j as int]@),
                    hull_ring_boundary_inside(self.exterior@, self.interiors@[j as int]@)
                        != Dimension::OneDimensional,
                    forall|x: int|
                        0 <= x < i && x != j ==> #[trigger] hole_pair_ok(*self, j as int, x),
                decreases n_int - i,
            {
                if i != j {
                    let dims = rings_relate(&self.interiors[j], &self.interiors[i]);
                    if dims.0 == Dimension::TwoDimensional {
                        proof {
                            assert(!hole_pair_ok(*self, j as int, i as int));
                            assert(!hole_ok(*self, j as int));
                        }
                        return false;
                    }
                    if dims.1 == Dimension::OneDimensional {
                        proof {
                            assert(!hole_pair_ok(*self, j as int, i as int));
                            assert(!hole_ok(*self, j as int));
                        }
                        return false;
                    }
                }
                i = i + 1;
            }
            proof {
                assert(hole_ok(*self, j as int));
            }
            j = j + 1;
        }
        true
    }

    fn explain_invalidity(&self) -> (report: Option<Vec<ProblemAtPosition>>) {
        let raw = polygon_raw_problems(self);
        if raw.len() == 0 {
            return None;
        }
        let mut reason: Vec<ProblemAtPosition> = Vec::new();
        let n = raw.len();
        let mut k: usize = 0;
        while k < n
            invariant
                0 <= k <= n,
                n == raw@.len(),
                raw@ == polygon_raw(*self),
                reason@ =~= raw@.subrange(0, k as int).map_values(
                    |t: RingRaw| ProblemAtPosition(t.0, ProblemPosition::Polygon(t.1, t.2)),
                ),
            decreases n - k,
        {
            let (problem, role, position) = raw[k];
            reason.push(ProblemAtPosition(problem, ProblemPosition::Polygon(role, position)));
            proof {
                assert(raw@.subrange(0, k + 1).drop_last() =~= raw@.subrange(0, k as int));
                assert(raw@.subrange(0, k + 1)[k as int] == raw@[k as int]);
            }
            k = k + 1;
        }
        proof {
            assert(raw@.subrange(0, n as int) =~= raw@);
        }
        Some(reason)
    }
}

} // verus!
