//! Multi-polygons: collections of polygons.
//!
//! A multi-polygon is valid when every element polygon is valid, no two
//! elements are coordinate-for-coordinate identical, elements do not share
//! interior area, and elements touch at most in isolated points, never
//! along a line. Each element's own findings are re-labelled with the
//! element's index; every ordered pair of distinct elements is checked, so
//! a conflict between two elements is reported at both.

use crate::coord::{Coord, coord_eq, coords_equal};
use crate::linestring::{LineString, rings_view};
use crate::polygon::{
    Polygon, RingRaw, lemma_polygon_valid_iff, lemma_rings_ok_finite, polygon_finite,
    polygon_is_finite, polygon_raw, polygon_raw_problems, polygon_spec_valid,
};
use crate::predicates::{Dimension, polygon_pair_relate, polygons_relate};
use crate::{
    CoordinatePosition, GeometryPosition, Problem, ProblemAtPosition, ProblemPosition, RingRole,
    Valid,
};
use vstd::prelude::*;

verus! {

/// An ordered collection of polygons.
#[derive(Debug, Clone)]
pub struct MultiPolygon(pub Vec<Polygon>);

/// The two rings have the same coordinates, position by position, under
/// numeric equality.
pub open spec fn identical_rings(a: Seq<Coord>, b: Seq<Coord>) -> bool {
    a.len() == b.len() && forall|i: int| 0 <= i < a.len() ==> coord_eq(#[trigger] a[i], b[i])
}

/// The two polygons are coordinate-for-coordinate identical.
pub open spec fn identical_polygons(a: Polygon, b: Polygon) -> bool {
    &&& identical_rings(a.exterior@, b.exterior@)
    &&& a.interiors@.len() == b.interiors@.len()
    &&& forall|j: int|
        0 <= j < a.interiors@.len() ==> identical_rings(
            #[trigger] a.interiors@[j]@,
            b.interiors@[j]@,
        )
}

/// Being identical is symmetric: the comparison reads the same coordinate
/// pairs either way around.
pub proof fn lemma_identical_polygons_symmetric(a: Polygon, b: Polygon)
    ensures
        identical_polygons(a, b) == identical_polygons(b, a),
{
}

/// Whether the two rings have the same coordinates, position by position.
pub fn rings_identical(a: &LineString, b: &LineString) -> (r: bool)
    ensures
        r == identical_rings(a@, b@),
{
    let n = a.0.len();
    if n != b.0.len() {
        return false;
    }
    let mut i: usize = 0;
    while i < n
        invariant
            0 <= i <= n,
            n == a@.len() == b@.len(),
            forall|k: int| 0 <= k < i ==> coord_eq(#[trigger] a@[k], b@[k]),
        decreases n - i,
    {
        if !coords_equal(&a.0[i], &b.0[i]) {
            return false;
        }
        i = i + 1;
    }
    true
}

/// Whether the two polygons are coordinate-for-coordinate identical.
pub fn polygons_identical(a: &Polygon, b: &Polygon) -> (r: bool)
    ensures
        r == identical_polygons(*a, *b),
{
    if !rings_identical(&a.exterior, &b.exterior) {
        return false;
    }
    let n = a.interiors.len();
    if n != b.interiors.len() {
        return false;
    }
    let mut j: usize = 0;
    while j < n
        invariant
            0 <= j <= n,
            n == a.interiors@.len() == b.interiors@.len(),
            identical_rings(a.exterior@, b.exterior@),
            forall|k: int|
                0 <= k < j ==> identical_rings(#[trigger] a.interiors@[k]@, b.interiors@[k]@),
        decreases n - j,
    {
        if !rings_identical(&a.interiors[j], &b.interiors[j]) {
            return false;
        }
        j = j + 1;
    }
    true
}

/// The relate-matrix entries for the ordered element pair `(j, i)`.
pub open spec fn mp_pair_dims(polys: Seq<Polygon>, j: int, i: int) -> (Dimension, Dimension) {
    polygon_pair_relate(
        polys[j].exterior@,
        rings_view(polys[j].interiors@),
        polys[i].exterior@,
        rings_view(polys[i].interiors@),
    )
}

/// The pairwise findings for the ordered element pair `(j, i)`: identical
/// elements, or — for distinct, finite elements — overlapping in area and
/// touching along a line.
pub open spec fn mp_pair_raw(polys: Seq<Polygon>, j: int, i: int) -> Seq<RingRaw> {
    if identical_polygons(polys[j], polys[i]) {
        seq![(Problem::ElementsAreIdentical, RingRole::Exterior, CoordinatePosition(None))]
    } else if polygon_finite(polys[j]) && polygon_finite(polys[i]) {
        (if mp_pair_dims(polys, j, i).0 == Dimension::TwoDimensional {
            seq![(Problem::ElementsOverlaps, RingRole::Exterior, CoordinatePosition(None))]
        } else {
            Seq::<RingRaw>::empty()
        }) + (if mp_pair_dims(polys, j, i).1 == Dimension::OneDimensional {
            seq![(Problem::ElementsTouchOnALine, RingRole::Exterior, CoordinatePosition(None))]
        } else {
            Seq::<RingRaw>::empty()
        })
    } else {
        Seq::empty()
    }
}

/// The ordered element pair `(j, i)` is in order: not identical, no shared
/// interior area, no boundary shared along a line.
pub open spec fn mp_pair_ok(polys: Seq<Polygon>, j: int, i: int) -> bool {
    &&& !identical_polygons(polys[j], polys[i])
    &&& mp_pair_dims(polys, j, i).0 != Dimension::TwoDimensional
    &&& mp_pair_dims(polys, j, i).1 != Dimension::OneDimensional
}

/// What the pairwise scan of element `j` against element `i` has shown
/// when it passed: the two are not identical, and — where element `i` is
/// finite, so that the relate matrix was consulted — the dimensions are in
/// order.
pub open spec fn mp_pair_checked(polys: Seq<Polygon>, j: int, i: int) -> bool {
    &&& !identical_polygons(polys[j], polys[i])
    &&& polygon_finite(polys[i]) ==> (mp_pair_dims(polys, j, i).0 != Dimension::TwoDimensional
        && mp_pair_dims(polys, j, i).1 != Dimension::OneDimensional)
}

/// The pairwise findings of element `j` against elements `0..i`, skipping
/// `j` itself.
pub open spec fn mp_pairs_upto(polys: Seq<Polygon>, j: int, i: int) -> Seq<RingRaw>
    decreases i,
{
    if i <= 0 {
        Seq::empty()
    } else {
        mp_pairs_upto(polys, j, i - 1) + (if i - 1 == j {
            Seq::<RingRaw>::empty()
        } else {
            mp_pair_raw(polys, j, i - 1)
        })
    }
}

pub proof fn lemma_mp_pairs_upto_empty(polys: Seq<Polygon>, j: int, i: int)
    ensures
        mp_pairs_upto(polys, j, i).len() == 0 <==> (forall|x: int|
            0 <= x < i && x != j ==> (#[trigger] mp_pair_raw(polys, j, x)).len() == 0),
    decreases i,
{
    if i > 0 {
        lemma_mp_pairs_upto_empty(polys, j, i - 1);
    }
}

/// The findings of element `j`: its polygon's own findings, then its
/// pairwise findings, all at the element's index.
pub open spec fn mp_elem_problems(polys: Seq<Polygon>, j: int) -> Seq<ProblemAtPosition> {
    (polygon_raw(polys[j]) + mp_pairs_upto(polys, j, polys.len() as int)).map_values(
        |t: RingRaw|
            ProblemAtPosition(
                t.0,
                ProblemPosition::MultiPolygon(GeometryPosition(j as usize), t.1, t.2),
            ),
    )
}

/// The findings of the elements `0..j`, in element order.
pub open spec fn mp_problems_upto(polys: Seq<Polygon>, j: int) -> Seq<ProblemAtPosition>
    decreases j,
{
    if j <= 0 {
        Seq::empty()
    } else {
        mp_problems_upto(polys, j - 1) + mp_elem_problems(polys, j - 1)
    }
}

/// The findings of a multi-polygon.
pub open spec fn multipolygon_problems(polys: Seq<Polygon>) -> Seq<ProblemAtPosition> {
    mp_problems_upto(polys, polys.len() as int)
}

/// What it means for a multi-polygon to be valid: every element valid, and
/// every ordered pair of distinct elements in order.
pub open spec fn multipolygon_spec_valid(polys: Seq<Polygon>) -> bool {
    &&& forall|j: int| 0 <= j < polys.len() ==> polygon_spec_valid(#[trigger] polys[j])
    &&& forall|j: int, i: int|
        0 <= j < polys.len() && 0 <= i < polys.len() && i != j ==> #[trigger] mp_pair_ok(
            polys,
            j,
            i,
        )
}

pub proof fn lemma_mp_problems_upto_empty(polys: Seq<Polygon>, j: int)
    ensures
        mp_problems_upto(polys, j).len() == 0 <==> (forall|x: int|
            0 <= x < j ==> (#[trigger] mp_elem_problems(polys, x)).len() == 0),
    decreases j,
{
    if j > 0 {
        lemma_mp_problems_upto_empty(polys, j - 1);
    }
}

/// A multi-polygon is valid exactly when it has no findings.
pub proof fn lemma_multipolygon_valid_iff(polys: Seq<Polygon>)
    ensures
        multipolygon_spec_valid(polys) <==> multipolygon_problems(polys).len() == 0,
{
    let n = polys.len() as int;
    lemma_mp_problems_upto_empty(polys, n);
    assert forall|x: int| 0 <= x < n implies (polygon_spec_valid(#[trigger] polys[x])
        <==> polygon_raw(polys[x]).len() == 0) by {
        lemma_polygon_valid_iff(polys[x]);
    }
    if multipolygon_problems(polys).len() == 0 {
        assert forall|x: int| 0 <= x < n implies polygon_spec_valid(#[trigger] polys[x]) by {
            assert(mp_elem_problems(polys, x).len() == 0);
            assert(polygon_raw(polys[x]).len() == 0);
        }
        assert forall|j: int, i: int|
            0 <= j < n && 0 <= i < n && i != j implies #[trigger] mp_pair_ok(polys, j, i) by {
            assert(mp_elem_problems(polys, j).len() == 0);
            assert(mp_elem_problems(polys, i).len() == 0);
            assert(polygon_raw(polys[j]).len() == 0);
            assert(polygon_raw(polys[i]).len() == 0);
            lemma_mp_pairs_upto_empty(polys, j, n);
            assert(mp_pair_raw(polys, j, i).len() == 0);
            assert(polygon_spec_valid(polys[j]));
            assert(polygon_spec_valid(polys[i]));
            lemma_rings_ok_finite(polys[j]);
            lemma_rings_ok_finite(polys[i]);
        }
    }
    if multipolygon_spec_valid(polys) {
        assert forall|x: int| 0 <= x < n implies (#[trigger] mp_elem_problems(polys, x)).len()
            == 0 by {
            lemma_mp_pairs_upto_empty(polys, x, n);
            assert forall|y: int| 0 <= y < n && y != x implies (#[trigger] mp_pair_raw(
                polys,
                x,
                y,
            )).len() == 0 by {
                assert(mp_pair_ok(polys, x, y));
                assert(polygon_spec_valid(polys[x]));
                assert(polygon_spec_valid(polys[y]));
            }
            assert(mp_pairs_upto(polys, x, n).len() == 0);
            assert(polygon_raw(polys[x]).len() == 0);
        }
        assert(mp_problems_upto(polys, n).len() == 0);
    }
}

impl Valid for MultiPolygon {
    open spec fn spec_problems(&self) -> Seq<ProblemAtPosition> {
        multipolygon_problems(self.0@)
    }

    open spec fn spec_valid(&self) -> bool {
        multipolygon_spec_valid(self.0@)
    }

    proof fn valid_iff_no_problems(&self) {
        lemma_multipolygon_valid_iff(self.0@);
    }

    fn is_valid(&self) -> (valid: bool) {
        let n = self.0.len();
        let mut j: usize = 0;
        while j < n
            invariant
                0 <= j <= n,
                n == self.0@.len(),
                forall|x: int| 0 <= x < j ==> polygon_spec_valid(#[trigger] self.0@[x]),
                forall|x: int, y: int|
                    0 <= x < j && 0 <= y < n && y != x ==> #[trigger] mp_pair_checked(
                        self.0@,
                        x,
                        y,
                    ),
            decreases n - j,
        {
            if !self.0[j].is_valid() {
                return false;
            }
            proof {
                lemma_rings_ok_finite(self.0@[j as int]);
            }
            let mut i: usize = 0;
            while i < n
                invariant
                    0 <= i <= n,
                    0 <= j < n,
                    n == self.0@.len(),
                    polygon_spec_valid(self.0@[j as int]),
                    polygon_finite(self.0@[j as int]),
                    forall|y: int|
                        0 <= y < i && y != j ==> #[trigger] mp_pair_checked(self.0@, j as int, y),
                decreases n - i,
            {
                if i != j {
                    if polygons_identical(&self.0[j], &self.0[i]) {
                        proof {
                            assert(!mp_pair_ok(self.0@, j as int, i as int));
                        }
                        return false;
                    }
                    if polygon_is_finite(&self.0[i]) {
                        let dims = polygons_relate(
                            &self.0[j].exterior,
                            &self.0[j].interiors,
                            &self.0[i].exterior,
                            &self.0[i].interiors,
                        );
                        if dims.0 == Dimension::TwoDimensional {
                            proof {
                                assert(!mp_pair_ok(self.0@, j as int, i as int));
                            }
                            return false;
                        }
                        if dims.1 == Dimension::OneDimensional {
                            proof {
                                assert(!mp_pair_ok(self.0@, j as int, i as int));
                            }
                            return false;
                        }
                    }
                }
                i = i + 1;
            }
            j = j + 1;
        }
        proof {
            if n > 0 {
                assert forall|x: int, y: int|
                    0 <= x < n && 0 <= y < n && y != x implies #[trigger] mp_pair_ok(
                    self.0@,
                    x,
                    y,
                ) by {
                    assert(mp_pair_checked(self.0@, x, y));
                    assert(polygon_spec_valid(self.0@[y]));
                    lemma_rings_ok_finite(self.0@[y]);
                }
            }
        }
        true
    }

    fn explain_invalidity(&self) -> (report: Option<Vec<ProblemAtPosition>>) {
        let mut reason: Vec<ProblemAtPosition> = Vec::new();
        let n = self.0.len();
        let mut j: usize = 0;
        while j < n
            invariant
                0 <= j <= n,
                n == self.0@.len(),
                reason@ == mp_problems_upto(self.0@, j as int),
            decreases n - j,
        {
            let mut elem_raw = polygon_raw_problems(&self.0[j]);
            let mut i: usize = 0;
            while i < n
                invariant
                    0 <= i <= n,
                    0 <= j < n,
                    n == self.0@.len(),
                    elem_raw@ == polygon_raw(self.0@[j as int]) + mp_pairs_upto(
                        self.0@,
                        j as int,
                        i as int,
                    ),
                decreases n - i,
            {
                if i != j {
                    if polygons_identical(&self.0[j], &self.0[i]) {
                        elem_raw.push(
                            (
                                Problem::ElementsAreIdentical,
                                RingRole::Exterior,
                                CoordinatePosition(None),
                            ),
                        );
                    } else if polygon_is_finite(&self.0[j]) && polygon_is_finite(&self.0[i]) {
                        let dims = polygons_relate(
                            &self.0[j].exterior,
                            &self.0[j].interiors,
                            &self.0[i].exterior,
                            &self.0[i].interiors,
                        );
                        if dims.0 == Dimension::TwoDimensional {
                            elem_raw.push(
                                (
                                    Problem::ElementsOverlaps,
                                    RingRole::Exterior,
                                    CoordinatePosition(None),
                                ),
                            );
                        }
                        if dims.1 == Dimension::OneDimensional {
                            elem_raw.push(
                                (
                                    Problem::ElementsTouchOnALine,
                                    RingRole::Exterior,
                                    CoordinatePosition(None),
                                ),
                            );
                        }
                    }
                }
                proof {
                    assert(elem_raw@ =~= polygon_raw(self.0@[j as int]) + mp_pairs_upto(
                        self.0@,
                        j as int,
                        i + 1,
                    ));
                }
                i = i + 1;
            }
            let m = elem_raw.len();
            let mut k: usize = 0;
            let ghost before = reason@;
            while k < m
                invariant
                    0 <= k <= m,
                    0 <= j < n,
                    m == elem_raw@.len(),
                    n == self.0@.len(),
                    elem_raw@ == polygon_raw(self.0@[j as int]) + mp_pairs_upto(
                        self.0@,
                        j as int,
                        n as int,
                    ),
                    reason@ =~= before + elem_raw@.subrange(0, k as int).map_values(
                        |t: RingRaw|
                            ProblemAtPosition(
                                t.0,
                                ProblemPosition::MultiPolygon(GeometryPosition(j), t.1, t.2),
                            ),
                    ),
                decreases m - k,
            {
                let (problem, role, position) = elem_raw[k];
                reason.push(
                    ProblemAtPosition(
                        problem,
                        ProblemPosition::MultiPolygon(GeometryPosition(j), role, position),
                    ),
                );
                proof {
                    assert(elem_raw@.subrange(0, k + 1).drop_last() =~= elem_raw@.subrange(
                        0,
                        k as int,
                    ));
                    assert(elem_raw@.subrange(0, k + 1)[k as int] == elem_raw@[k as int]);
                }
                k = k + 1;
            }
            proof {
                assert(elem_raw@.subrange(0, m as int) =~= elem_raw@);
                assert(reason@ =~= before + mp_elem_problems(self.0@, j as int));
                assert(reason@ =~= mp_problems_upto(self.0@, j + 1));
            }
            j = j + 1;
        }
        proof {
            assert(reason@ == multipolygon_problems(self.0@));
        }
        if reason.len() == 0 {
            None
        } else {
            Some(reason)
        }
    }
}

} // verus!
