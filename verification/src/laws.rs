//! The laws of the library: properties that hold across the validators,
//! each stated and proved here. The most basic one — a geometry is valid
//! exactly when its explanation is empty — is part of the `Valid` trait
//! itself (`valid_iff_no_problems`), proved by every implementation.

use crate::coord::{Coord, all_finite};
use crate::multipolygon::{
    identical_polygons, lemma_identical_polygons_symmetric, mp_elem_problems, mp_pair_dims,
    mp_pair_raw, mp_pairs_upto, mp_problems_upto, multipolygon_problems,
};
use crate::polygon::{
    Polygon, RingRaw, polygon_raw, polygon_rings, polygon_spec_valid, ring_ok, ring_raw,
};
use crate::predicates::{Dimension, segs_intersect};
use crate::utils::{distinct_count, ring_self_intersects, seg_count, segs_adjacent};
use crate::{
    CoordinatePosition, GeometryPosition, Problem, ProblemAtPosition, ProblemPosition, RingRole,
};
use vstd::prelude::*;

verus! {

/// A finite ring used as a polygon exterior with no holes makes a valid
/// polygon exactly when the ring keeps enough distinct points and is
/// simple: the polygon engine adds nothing else for a hole-free polygon.
pub proof fn lemma_hole_free_polygon_validity(p: Polygon)
    requires
        p.interiors@.len() == 0,
        all_finite(p.exterior@),
    ensures
        polygon_spec_valid(p) <==> (distinct_count(p.exterior@) >= 4 && !ring_self_intersects(
            p.exterior@,
        )),
{
    assert(polygon_rings(p).len() == 1);
    assert(polygon_rings(p)[0] == p.exterior@);
    if distinct_count(p.exterior@) >= 4 && !ring_self_intersects(p.exterior@) {
        assert forall|k: int| 0 <= k < polygon_rings(p).len() implies ring_ok(
            #[trigger] polygon_rings(p)[k],
        ) by {
            assert(polygon_rings(p)[k] == p.exterior@);
        }
    }
}

/// Two consecutive ring segments, sharing their designed join point, are
/// never what makes a ring self-intersecting: a ring all of whose other
/// segment pairs are disjoint is simple.
pub proof fn lemma_only_adjacent_contacts_keep_ring_simple(s: Seq<Coord>)
    requires
        forall|i: int, j: int|
            0 <= i < j < seg_count(s) && !segs_adjacent(i, j, s) ==> !segs_intersect(
                s[i],
                s[i + 1],
                s[j],
                s[j + 1],
            ),
    ensures
        !ring_self_intersects(s),
{
}

/// Any two non-consecutive segments that intersect — even in a single
/// point — make the ring self-intersecting, and the ring's findings then
/// carry `SelfIntersection` for the ring as a whole.
pub proof fn lemma_nonconsecutive_intersection_reported(s: Seq<Coord>, i: int, j: int)
    requires
        0 <= i < j < seg_count(s),
        !segs_adjacent(i, j, s),
        segs_intersect(s[i], s[i + 1], s[j], s[j + 1]),
    ensures
        ring_self_intersects(s),
        ring_raw(s).contains((Problem::SelfIntersection, CoordinatePosition(None))),
{
    assert(ring_self_intersects(s));
    let head = if distinct_count(s) < 4 {
        seq![(Problem::TooFewPoints, CoordinatePosition(None))]
    } else {
        Seq::<(Problem, CoordinatePosition)>::empty()
    };
    let finding = (Problem::SelfIntersection, CoordinatePosition(None));
    assert(ring_raw(s)[head.len() as int] == finding);
}

/// An element of `mp_pair_raw` is somewhere in the pairwise findings of
/// element `j` against the first `n` elements.
proof fn lemma_mp_pairs_upto_contains(polys: Seq<Polygon>, j: int, i: int, n: int, t: RingRaw)
    requires
        0 <= i < n,
        i != j,
        mp_pair_raw(polys, j, i).contains(t),
    ensures
        mp_pairs_upto(polys, j, n).contains(t),
    decreases n,
{
    if i == n - 1 {
        let prefix = mp_pairs_upto(polys, j, n - 1);
        let own = mp_pair_raw(polys, j, i);
        let k = choose|k: int| 0 <= k < own.len() && own[k] == t;
        assert(mp_pairs_upto(polys, j, n)[prefix.len() + k] == t);
    } else {
        lemma_mp_pairs_upto_contains(polys, j, i, n - 1, t);
        let prefix = mp_pairs_upto(polys, j, n - 1);
        let k = choose|k: int| 0 <= k < prefix.len() && prefix[k] == t;
        assert(mp_pairs_upto(polys, j, n)[k] == t);
    }
}

/// A pairwise finding of element `j` stands in the multi-polygon's
/// findings, wrapped at element `j`'s position.
proof fn lemma_mp_pair_finding_reported(polys: Seq<Polygon>, j: int, i: int, t: RingRaw)
    requires
        0 <= j < polys.len(),
        0 <= i < polys.len(),
        i != j,
        mp_pair_raw(polys, j, i).contains(t),
    ensures
        multipolygon_problems(polys).contains(
            ProblemAtPosition(
                t.0,
                ProblemPosition::MultiPolygon(GeometryPosition(j as usize), t.1, t.2),
            ),
        ),
{
    let n = polys.len() as int;
    lemma_mp_pairs_upto_contains(polys, j, i, n, t);
    let pairs = mp_pairs_upto(polys, j, n);
    let whole = polygon_raw(polys[j]) + pairs;
    let k = choose|k: int| 0 <= k < pairs.len() && pairs[k] == t;

    let at = polygon_raw(polys[j]).len() + k;
    assert(whole[at] == t);
    let wrapped = ProblemAtPosition(
        t.0,
        ProblemPosition::MultiPolygon(GeometryPosition(j as usize), t.1, t.2),
    );
    assert(mp_elem_problems(polys, j)[at] == wrapped);
    lemma_mp_elem_problems_reported(polys, j, n, wrapped);
}

/// A finding of element `j` stands in the findings of the first `n`
/// elements, for `j < n`.
proof fn lemma_mp_elem_problems_reported(
    polys: Seq<Polygon>,
    j: int,
    n: int,
    p: ProblemAtPosition,
)
    requires
        0 <= j < n,
        mp_elem_problems(polys, j).contains(p),
    ensures
        mp_problems_upto(polys, n).contains(p),
    decreases n,
{
    if j == n - 1 {
        let prefix = mp_problems_upto(polys, n - 1);
        let own = mp_elem_problems(polys, j);
        let k = choose|k: int| 0 <= k < own.len() && own[k] == p;
        assert(mp_problems_upto(polys, n)[prefix.len() + k] == p);
    } else {
        lemma_mp_elem_problems_reported(polys, j, n - 1, p);
        let prefix = mp_problems_upto(polys, n - 1);
        let k = choose|k: int| 0 <= k < prefix.len() && prefix[k] == p;
        assert(mp_problems_upto(polys, n)[k] == p);
    }
}

/// Two coordinate-for-coordinate identical elements of a multi-polygon
/// are each reported: being identical is symmetric, so the
/// `ElementsAreIdentical` finding appears at both elements' positions.
pub proof fn lemma_identical_elements_reported_at_both(polys: Seq<Polygon>, j: int, i: int)
    requires
        0 <= j < polys.len(),
        0 <= i < polys.len(),
        i != j,
        identical_polygons(polys[j], polys[i]),
    ensures
        multipolygon_problems(polys).contains(
            ProblemAtPosition(
                Problem::ElementsAreIdentical,
                ProblemPosition::MultiPolygon(
                    GeometryPosition(j as usize),
                    RingRole::Exterior,
                    CoordinatePosition(None),
                ),
            ),
        ),
        multipolygon_problems(polys).contains(
            ProblemAtPosition(
                Problem::ElementsAreIdentical,
                ProblemPosition::MultiPolygon(
                    GeometryPosition(i as usize),
                    RingRole::Exterior,
                    CoordinatePosition(None),
                ),
            ),
        ),
{
    lemma_identical_polygons_symmetric(polys[j], polys[i]);
    let finding = (Problem::ElementsAreIdentical, RingRole::Exterior, CoordinatePosition(None));
    assert(mp_pair_raw(polys, j, i)[0] == finding);
    assert(mp_pair_raw(polys, i, j)[0] == finding);
    lemma_mp_pair_finding_reported(polys, j, i, finding);
    lemma_mp_pair_finding_reported(polys, i, j, finding);
}

/// A pairwise conflict between two distinct, finite, non-identical
/// elements is reported at the first element's position: an overlap in
/// area as `ElementsOverlaps`, a boundary shared along a line as
/// `ElementsTouchOnALine`.
pub proof fn lemma_pair_conflict_reported_at_element(polys: Seq<Polygon>, j: int, i: int)
    requires
        0 <= j < polys.len(),
        0 <= i < polys.len(),
        i != j,
        !identical_polygons(polys[j], polys[i]),
        crate::polygon::polygon_finite(polys[j]),
        crate::polygon::polygon_finite(polys[i]),
    ensures
        mp_pair_dims(polys, j, i).0 == Dimension::TwoDimensional ==> multipolygon_problems(
            polys,
        ).contains(
            ProblemAtPosition(
                Problem::ElementsOverlaps,
                ProblemPosition::MultiPolygon(
                    GeometryPosition(j as usize),
                    RingRole::Exterior,
                    CoordinatePosition(None),
                ),
            ),
        ),
        mp_pair_dims(polys, j, i).1 == Dimension::OneDimensional ==> multipolygon_problems(
            polys,
        ).contains(
            ProblemAtPosition(
                Problem::ElementsTouchOnALine,
                ProblemPosition::MultiPolygon(
                    GeometryPosition(j as usize),
                    RingRole::Exterior,
                    CoordinatePosition(None),
                ),
            ),
        ),
{
    if mp_pair_dims(polys, j, i).0 == Dimension::TwoDimensional {
        let finding = (Problem::ElementsOverlaps, RingRole::Exterior, CoordinatePosition(None));
        assert(mp_pair_raw(polys, j, i)[0] == finding);
        lemma_mp_pair_finding_reported(polys, j, i, finding);
    }
    if mp_pair_dims(polys, j, i).1 == Dimension::OneDimensional {
        let finding = (
            Problem::ElementsTouchOnALine,
            RingRole::Exterior,
            CoordinatePosition(None),
        );
        let head = if mp_pair_dims(polys, j, i).0 == Dimension::TwoDimensional {
            seq![(Problem::ElementsOverlaps, RingRole::Exterior, CoordinatePosition(None))]
        } else {
            Seq::<RingRaw>::empty()
        };
        assert(mp_pair_raw(polys, j, i)[head.len() as int] == finding);
        lemma_mp_pair_finding_reported(polys, j, i, finding);
    }
}

/// Explaining a geometry is deterministic: the report is a function of the
/// geometry value alone, so running the explanation twice on the same
/// value yields an identical ordered report. (`explain_invalidity`'s
/// contract pins its result to `geometry_problems`.)
pub proof fn lemma_explanation_deterministic(
    g: crate::geometry::Geometry,
    first: Seq<ProblemAtPosition>,
    second: Seq<ProblemAtPosition>,
)
    requires
        first == crate::geometry::geometry_problems(g),
        second == crate::geometry::geometry_problems(g),
    ensures
        first == second,
{
}

} // verus!
