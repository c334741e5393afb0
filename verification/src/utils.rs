//! The checks shared by the validators: finiteness of a coordinate, the
//! point count of a line or ring after dropping consecutive duplicates, and
//! ring self-intersection.

use crate::coord::{Coord, all_finite, coord_eq, coord_finite, coord_is_finite, coords_equal};
use crate::linestring::LineString;
use crate::predicates::{segs_intersect, segments_intersect};
use crate::{CoordinatePosition, Problem};
use vstd::prelude::*;

verus! {

/// One finding inside a single element, before its position is wrapped into
/// the owning geometry: the problem and the coordinate it concerns.
pub type RawProblem = (Problem, CoordinatePosition);

/// Whether the coordinate has a NaN or infinite component.
pub fn check_coord_is_not_finite(geom: &Coord) -> (r: bool)
    ensures
        r == !coord_finite(*geom),
{
    !coord_is_finite(geom)
}

/// Whether every coordinate of the vector is finite.
pub fn coords_all_finite(coords: &Vec<Coord>) -> (r: bool)
    ensures
        r == all_finite(coords@),
{
    let n = coords.len();
    let mut i: usize = 0;
    while i < n
        invariant
            0 <= i <= n,
            n == coords@.len(),
            forall|k: int| 0 <= k < i ==> coord_finite(#[trigger] coords@[k]),
        decreases n - i,
    {
        if !coord_is_finite(&coords[i]) {
            return false;
        }
        i = i + 1;
    }
    true
}

/// How many points remain of `s` once consecutive numerically-equal
/// duplicates are dropped.
pub open spec fn distinct_count(s: Seq<Coord>) -> int
    decreases s.len(),
{
    if s.len() <= 1 {
        s.len() as int
    } else {
        distinct_count(s.drop_last()) + if coord_eq(s[s.len() - 2], s[s.len() - 1]) {
            0int
        } else {
            1int
        }
    }
}

/// Whether the line or ring keeps too few points once consecutive
/// duplicates are dropped: fewer than 4 for a ring (three distinct vertices
/// plus the closing point), fewer than 2 for an open line.
pub fn check_too_few_points(geom: &LineString, is_ring: bool) -> (r: bool)
    ensures
        r == (distinct_count(geom@) < if is_ring {
            4int
        } else {
            2int
        }),
{
    let threshold: usize = if is_ring {
        4
    } else {
        2
    };
    let n = geom.0.len();
    if n == 0 {
        return true;
    }
    let mut count: usize = 1;
    let mut i: usize = 1;
    proof {
        assert(distinct_count(geom@.subrange(0, 1)) == 1);
    }
    while i < n
        invariant
            1 <= i <= n,
            n == geom@.len(),
            count <= i,
            count == distinct_count(geom@.subrange(0, i as int)),
        decreases n - i,
    {
        proof {
            let s = geom@;
            assert(s.subrange(0, i + 1).drop_last() =~= s.subrange(0, i as int));
            assert(s.subrange(0, i + 1)[i as int] == s[i as int]);
            assert(s.subrange(0, i + 1)[i - 1] == s[i - 1]);
        }
        if !coords_equal(&geom.0[i - 1], &geom.0[i]) {
            count = count + 1;
        }
        i = i + 1;
    }
    proof {
        assert(geom@.subrange(0, n as int) =~= geom@);
    }
    count < threshold
}

/// How many segments the coordinate sequence spans: one between each pair
/// of successive coordinates.
pub open spec fn seg_count(s: Seq<Coord>) -> int {
    if s.len() < 2 {
        0
    } else {
        s.len() - 1
    }
}

/// The sequence closes back on its first coordinate.
pub open spec fn ring_closed(s: Seq<Coord>) -> bool {
    s.len() >= 2 && coord_eq(s[0], s[s.len() - 1])
}

/// Segments `i` and `j` of `s` are consecutive: they share a designed join
/// point, either directly or — in a closed ring — around the closing point.
pub open spec fn segs_adjacent(i: int, j: int, s: Seq<Coord>) -> bool {
    ||| j == i + 1
    ||| i == j + 1
    ||| (ring_closed(s) && ((i == 0 && j == seg_count(s) - 1) || (j == 0 && i == seg_count(s)
        - 1)))
}

/// The ring has a self-intersection: some two of its segments, other than
/// consecutive segments sharing their designed join point, meet.
pub open spec fn ring_self_intersects(s: Seq<Coord>) -> bool {
    exists|i: int, j: int|
        #![trigger segs_intersect(s[i], s[i + 1], s[j], s[j + 1])]
        0 <= i < j < seg_count(s) && !segs_adjacent(i, j, s) && segs_intersect(
            s[i],
            s[i + 1],
            s[j],
            s[j + 1],
        )
}

/// Whether the ring has a self-intersection, by testing every unordered
/// pair of non-consecutive segments. This is an all-pairs scan, quadratic
/// in the number of segments; at the expected input sizes (tens to low
/// thousands of vertices) no spatial index is needed.
pub fn linestring_has_self_intersection(geom: &LineString) -> (r: bool)
    ensures
        r == ring_self_intersects(geom@),
{
    let n = geom.0.len();
    if n < 2 {
        return false;
    }
    let nsegs = n - 1;
    let closed = coords_equal(&geom.0[0], &geom.0[n - 1]);
    let mut i: usize = 0;
    while i < nsegs
        invariant
            0 <= i <= nsegs,
            nsegs == seg_count(geom@),
            n == geom@.len(),
            n >= 2,
            nsegs == n - 1,
            closed == ring_closed(geom@),
            forall|x: int, y: int|
                0 <= x < i && x < y < nsegs && !segs_adjacent(x, y, geom@)
                    ==> !segs_intersect(geom@[x], geom@[x + 1], geom@[y], geom@[y + 1]),
        decreases nsegs - i,
    {
        let mut j: usize = i + 1;
        while j < nsegs
            invariant
                0 <= i < j <= nsegs,
                nsegs == seg_count(geom@),
                n == geom@.len(),
                n >= 2,
                nsegs == n - 1,
                closed == ring_closed(geom@),
                forall|x: int, y: int|
                    0 <= x < i && x < y < nsegs && !segs_adjacent(x, y, geom@)
                        ==> !segs_intersect(geom@[x], geom@[x + 1], geom@[y], geom@[y + 1]),
                forall|y: int|
                    i < y < j && !segs_adjacent(i as int, y, geom@)
                        ==> !segs_intersect(geom@[i as int], geom@[i + 1], geom@[y], geom@[y + 1]),
            decreases nsegs - j,
        {
            let adjacent = j == i + 1 || (closed && i == 0 && j == nsegs - 1);
            if !adjacent {
                if segments_intersect(&geom.0[i], &geom.0[i + 1], &geom.0[j], &geom.0[j + 1]) {
                    return true;
                }
            }
            j = j + 1;
        }
        i = i + 1;
    }
    false
}

} // verus!
