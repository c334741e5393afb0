//! The geometry union and its dispatcher: a tagged union over every
//! geometry kind, routing validity queries to the matching validator and
//! recursing through nested collections. A collection member's findings
//! are wrapped with the member's index, so a problem is located at
//! arbitrary nesting depth.

use crate::geometrycollection::GeometryCollection;
use crate::line::Line;
use crate::linestring::LineString;
use crate::multilinestring::MultiLineString;
use crate::multipoint::MultiPoint;
use crate::multipolygon::MultiPolygon;
use crate::point::Point;
use crate::polygon::Polygon;
use crate::rect::Rect;
use crate::triangle::Triangle;
use crate::{GeometryPosition, ProblemAtPosition, ProblemPosition, Valid};
use vstd::prelude::*;

verus! {

/// A geometry of any kind.
#[derive(Debug)]
pub enum Geometry {
    Point(Point),
    Line(Line),
    Rect(Rect),
    Triangle(Triangle),
    LineString(LineString),
    Polygon(Polygon),
    MultiPoint(MultiPoint),
    MultiLineString(MultiLineString),
    MultiPolygon(MultiPolygon),
    GeometryCollection(GeometryCollection),
}

/// The findings of a geometry of any kind.
pub open spec fn geometry_problems(g: Geometry) -> Seq<ProblemAtPosition>
    decreases g,
{
    match g {
        Geometry::Point(e) => e.spec_problems(),
        Geometry::Line(e) => e.spec_problems(),
        Geometry::Rect(e) => e.spec_problems(),
        Geometry::Triangle(e) => e.spec_problems(),
        Geometry::LineString(e) => e.spec_problems(),
        Geometry::Polygon(e) => e.spec_problems(),
        Geometry::MultiPoint(e) => e.spec_problems(),
        Geometry::MultiLineString(e) => e.spec_problems(),
        Geometry::MultiPolygon(e) => e.spec_problems(),
        Geometry::GeometryCollection(e) => collection_problems(e.0@),
    }
}

/// The findings of the members of a collection, in member order, each
/// member's findings wrapped with the member's index.
pub open spec fn collection_problems(elems: Seq<Geometry>) -> Seq<ProblemAtPosition>
    decreases elems,
{
    if elems.len() == 0 {
        Seq::empty()
    } else {
        collection_problems(elems.drop_last()) + geometry_problems(
            elems[elems.len() - 1],
        ).map_values(
            |p: ProblemAtPosition|
                ProblemAtPosition(
                    p.0,
                    ProblemPosition::GeometryCollection(
                        GeometryPosition((elems.len() - 1) as usize),
                        Box::new(p.1),
                    ),
                ),
        )
    }
}

/// What it means for a geometry of any kind to be valid.
pub open spec fn geometry_spec_valid(g: Geometry) -> bool
    decreases g,
{
    match g {
        Geometry::Point(e) => e.spec_valid(),
        Geometry::Line(e) => e.spec_valid(),
        Geometry::Rect(e) => e.spec_valid(),
        Geometry::Triangle(e) => e.spec_valid(),
        Geometry::LineString(e) => e.spec_valid(),
        Geometry::Polygon(e) => e.spec_valid(),
        Geometry::MultiPoint(e) => e.spec_valid(),
        Geometry::MultiLineString(e) => e.spec_valid(),
        Geometry::MultiPolygon(e) => e.spec_valid(),
        Geometry::GeometryCollection(e) => collection_spec_valid(e.0@),
    }
}

/// A collection is valid when all its members are.
pub open spec fn collection_spec_valid(elems: Seq<Geometry>) -> bool
    decreases elems,
{
    forall|i: int| 0 <= i < elems.len() ==> geometry_spec_valid(#[trigger] elems[i])
}

/// A geometry of any kind is valid exactly when it has no findings.
pub proof fn lemma_geometry_valid_iff(g: Geometry)
    ensures
        geometry_spec_valid(g) <==> geometry_problems(g).len() == 0,
    decreases g,
{
    match g {
        Geometry::Point(e) => e.valid_iff_no_problems(),
        Geometry::Line(e) => e.valid_iff_no_problems(),
        Geometry::Rect(e) => e.valid_iff_no_problems(),
        Geometry::Triangle(e) => e.valid_iff_no_problems(),
        Geometry::LineString(e) => e.valid_iff_no_problems(),
        Geometry::Polygon(e) => e.valid_iff_no_problems(),
        Geometry::MultiPoint(e) => e.valid_iff_no_problems(),
        Geometry::MultiLineString(e) => e.valid_iff_no_problems(),
        Geometry::MultiPolygon(e) => e.valid_iff_no_problems(),
        Geometry::GeometryCollection(e) => lemma_collection_valid_iff(e.0@),
    }
}

/// A collection is valid exactly when it has no findings.
pub proof fn lemma_collection_valid_iff(elems: Seq<Geometry>)
    ensures
        collection_spec_valid(elems) <==> collection_problems(elems).len() == 0,
    decreases elems,
{
    if elems.len() > 0 {
        lemma_collection_valid_iff(elems.drop_last());
        lemma_geometry_valid_iff(elems[elems.len() - 1]);
        assert(forall|i: int|
            0 <= i < elems.len() - 1 ==> elems.drop_last()[i] == #[trigger] elems[i]);
        if collection_spec_valid(elems) {
            assert(collection_spec_valid(elems.drop_last()));
        }
        if collection_problems(elems).len() == 0 {
            assert(collection_spec_valid(elems.drop_last()));
            assert(geometry_spec_valid(elems[elems.len() - 1]));
            assert forall|i: int| 0 <= i < elems.len() implies geometry_spec_valid(
                #[trigger] elems[i],
            ) by {
                if i < elems.len() - 1 {
                    assert(elems[i] == elems.drop_last()[i]);
                }
            }
        }
    }
}

/// Whether every member of the collection is valid.
pub fn collection_is_valid(elems: &Vec<Geometry>) -> (r: bool)
    ensures
        r == collection_spec_valid(elems@),
    decreases elems@,
{
    let n = elems.len();
    let mut i: usize = 0;
    while i < n
        invariant
            0 <= i <= n,
            n == elems@.len(),
            forall|k: int| 0 <= k < i ==> geometry_spec_valid(#[trigger] elems@[k]),
        decreases n - i,
    {
        if !geometry_is_valid(&elems[i]) {
            return false;
        }
        i = i + 1;
    }
    true
}

/// Whether the geometry is valid, by its kind's rules.
pub fn geometry_is_valid(g: &Geometry) -> (r: bool)
    ensures
        r == geometry_spec_valid(*g),
    decreases *g,
{
    match g {
        Geometry::Point(e) => e.is_valid(),
        Geometry::Line(e) => e.is_valid(),
        Geometry::Rect(e) => e.is_valid(),
        Geometry::Triangle(e) => e.is_valid(),
        Geometry::LineString(e) => e.is_valid(),
        Geometry::Polygon(e) => e.is_valid(),
        Geometry::MultiPoint(e) => e.is_valid(),
        Geometry::MultiLineString(e) => e.is_valid(),
        Geometry::MultiPolygon(e) => e.is_valid(),
        Geometry::GeometryCollection(e) => collection_is_valid(&e.0),
    }
}

/// The findings of the members of a collection, as plain data.
pub fn collection_problem_list(elems: &Vec<Geometry>) -> (r: Vec<ProblemAtPosition>)
    ensures
        r@ == collection_problems(elems@),
    decreases elems@,
{
    let mut reason: Vec<ProblemAtPosition> = Vec::new();
    let n = elems.len();
    let mut i: usize = 0;
    proof {
        assert(elems@.subrange(0, 0) =~= Seq::<Geometry>::empty());
    }
    while i < n
        invariant
            0 <= i <= n,
            n == elems@.len(),
            reason@ == collection_problems(elems@.subrange(0, i as int)),
        decreases n - i,
    {
        let child = geometry_problem_list(&elems[i]);
        let ghost child_problems = child@;
        let ghost before = reason@;
        let mut rest = child;
        while rest.len() > 0
            invariant
                0 <= i < n == elems@.len(),
                child_problems == geometry_problems(elems@[i as int]),
                rest@.len() <= child_problems.len(),
                rest@ == child_problems.subrange(
                    child_problems.len() - rest@.len(),
                    child_problems.len() as int,
                ),
                reason@ =~= before + child_problems.subrange(
                    0,
                    child_problems.len() - rest@.len(),
                ).map_values(
                    |p: ProblemAtPosition|
                        ProblemAtPosition(
                            p.0,
                            ProblemPosition::GeometryCollection(
                                GeometryPosition(i),
                                Box::new(p.1),
                            ),
                        ),
                ),
            decreases rest@.len(),
        {
            let ghost k = child_problems.len() - rest@.len();
            let p = rest.remove(0);
            proof {
                assert(p == child_problems[k]);
                assert(rest@ =~= child_problems.subrange(k + 1, child_problems.len() as int));
            }
            let ProblemAtPosition(problem, position) = p;
            reason.push(
                ProblemAtPosition(
                    problem,
                    ProblemPosition::GeometryCollection(GeometryPosition(i), Box::new(position)),
                ),
            );
            proof {
                assert(child_problems.subrange(0, k + 1).drop_last() =~= child_problems.subrange(
                    0,
                    k,
                ));
                assert(child_problems.subrange(0, k + 1)[k] == child_problems[k]);
                assert(reason@ =~= before + child_problems.subrange(0, k + 1).map_values(
                    |p: ProblemAtPosition|
                        ProblemAtPosition(
                            p.0,
                            ProblemPosition::GeometryCollection(
                                GeometryPosition(i),
                                Box::new(p.1),
                            ),
                        ),
                ));
            }
        }
        proof {
            assert(child_problems.subrange(0, child_problems.len() as int) =~= child_problems);
            assert(elems@.subrange(0, i + 1).drop_last() =~= elems@.subrange(0, i as int));
            assert(elems@.subrange(0, i + 1)[i as int] == elems@[i as int]);
            assert(reason@ =~= collection_problems(elems@.subrange(0, i + 1)));
        }
        i = i + 1;
    }
    proof {
        assert(elems@.subrange(0, n as int) =~= elems@);
    }
    reason
}

/// The findings of a geometry of any kind, as plain data.
pub fn geometry_problem_list(g: &Geometry) -> (r: Vec<ProblemAtPosition>)
    ensures
        r@ == geometry_problems(*g),
    decreases *g,
{
    let report = match g {
        Geometry::Point(e) => e.explain_invalidity(),
        Geometry::Line(e) => e.explain_invalidity(),
        Geometry::Rect(e) => e.explain_invalidity(),
        Geometry::Triangle(e) => e.explain_invalidity(),
        Geometry::LineString(e) => e.explain_invalidity(),
        Geometry::Polygon(e) => e.explain_invalidity(),
        Geometry::MultiPoint(e) => e.explain_invalidity(),
        Geometry::MultiLineString(e) => e.explain_invalidity(),
        Geometry::MultiPolygon(e) => e.explain_invalidity(),
        Geometry::GeometryCollection(e) => {
            return collection_problem_list(&e.0);
        },
    };
    match report {
        Some(problems) => problems,
        None => {
            let fresh: Vec<ProblemAtPosition> = Vec::new();
            proof {
                assert(fresh@ =~= geometry_problems(*g));
            }
            fresh
        },
    }
}

impl Valid for Geometry {
    open spec fn spec_problems(&self) -> Seq<ProblemAtPosition> {
        geometry_problems(*self)
    }

    open spec fn spec_valid(&self) -> bool {
        geometry_spec_valid(*self)
    }

    proof fn valid_iff_no_problems(&self) {
        lemma_geometry_valid_iff(*self);
    }

    fn is_valid(&self) -> (valid: bool) {
        geometry_is_valid(self)
    }

    fn explain_invalidity(&self) -> (report: Option<Vec<ProblemAtPosition>>) {
        let reason = geometry_problem_list(self);
        if reason.len() == 0 {
            None
        } else {
            Some(reason)
        }
    }
}

} // verus!
