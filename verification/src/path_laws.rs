//! Paths as shapes: how many points their verbs take, what areas, bands and rings look like, and what a trim
//! keeps.

use vstd::prelude::*;

use crate::path::{
    arc_fault, area_path, band_path, blended, curve_nodes, element_at, finite_point, morphs,
    point_eq, points_taken, polygon_of, reversed_points, ring_fault, rings_path, sector_fault,
    trim_step, FlatContour, GeometryError, Path, PathElement, PathVerb, TrimStep,
};
use crate::recording::Point;
use crate::scalar::{num, Scalar};

verus! {

proof fn verbs_read_prefixes(verbs: Seq<PathVerb>, more: PathVerb, n: nat)
    requires
        n <= verbs.len(),
    ensures
        points_taken(verbs.push(more), n) == points_taken(verbs, n),
    decreases n,
{
    if n > 0 {
        verbs_read_prefixes(verbs, more, (n - 1) as nat);
    }
}

/// A move and a line take one point, a quadratic curve two, a cubic one three, and a close none.
pub proof fn verbs_take_their_points(verbs: Seq<PathVerb>)
    ensures
        ({
            let n = verbs.len();
            let before = points_taken(verbs, n);
            &&& points_taken(Seq::empty(), 0) == 0
            &&& points_taken(verbs.push(PathVerb::Move), n + 1) == before + 1
            &&& points_taken(verbs.push(PathVerb::Line), n + 1) == before + 1
            &&& points_taken(verbs.push(PathVerb::Quad), n + 1) == before + 2
            &&& points_taken(verbs.push(PathVerb::Cubic), n + 1) == before + 3
            &&& points_taken(verbs.push(PathVerb::Close), n + 1) == before
        }),
{
    verbs_read_prefixes(verbs, PathVerb::Move, verbs.len());
    verbs_read_prefixes(verbs, PathVerb::Line, verbs.len());
    verbs_read_prefixes(verbs, PathVerb::Quad, verbs.len());
    verbs_read_prefixes(verbs, PathVerb::Cubic, verbs.len());
    verbs_read_prefixes(verbs, PathVerb::Close, verbs.len());
}

/// A path is valid where it is empty, or begins with a move and has exactly the points that its verbs
/// take, all of them finite and no more than can be drawn.
pub proof fn valid_paths_have_their_points(p: Path)
    requires
        p.points.len() <= usize::MAX,
    ensures
        p.valid() <==> {
            ||| p.verbs.len() == 0 && p.points.len() == 0
            ||| {
                &&& p.verbs.len() > 0
                &&& p.verbs[0] == PathVerb::Move
                &&& p.points.len() == points_taken(p.verbs, p.verbs.len())
                &&& p.points.len() <= 16_384
                &&& forall|i: int|
                    0 <= i < p.points.len() ==> (#[trigger] p.points[i]).x.finite()
                        && p.points[i].y.finite()
            }
        },
{
    if p.valid() && p.verbs.len() > 0 {
        assert forall|i: int| 0 <= i < p.points.len() implies (#[trigger] p.points[i]).x.finite()
            && p.points[i].y.finite() by {
            assert(finite_point(p.points[i]));
        }
    }
}

/// An area goes up from the baseline under the first point, along the contour, and down to the baseline
/// under the last point.
pub proof fn areas_stand_on_their_baseline(p: Path, baseline: Scalar)
    requires
        p.is_open_contour(),
    ensures
        ({
            let r = area_path(p, baseline);
            let n = p.points.len() as int;
            let m = p.verbs.len() as int;
            &&& r.points.len() == n + 2
            &&& r.points[0].x == p.points[0].x && r.points[0].y == baseline
            &&& r.points[n + 1].x == p.points[n - 1].x && r.points[n + 1].y == baseline
            &&& forall|i: int| 0 <= i < n ==> r.points[i + 1] == #[trigger] p.points[i]
            &&& r.verbs.len() == m + 3
            &&& r.verbs[0] == PathVerb::Move && r.verbs[1] == PathVerb::Line
            &&& forall|i: int| 1 <= i < m ==> r.verbs[i + 1] == #[trigger] p.verbs[i]
            &&& r.verbs[m + 1] == PathVerb::Line && r.verbs[m + 2] == PathVerb::Close
        }),
{
    let r = area_path(p, baseline);
    assert forall|i: int| 1 <= i < p.verbs.len() implies r.verbs[i + 1] == #[trigger] p.verbs[i] by {
        assert(r.verbs[i + 1] == p.verbs.skip(1)[i - 1]);
    }
}

/// A band runs along the upper contour, steps to the end of the lower one, runs back along it and is
/// closed.
pub proof fn bands_run_forth_and_back(upper: Path, lower: Path)
    requires
        upper.is_open_contour(),
        lower.is_open_contour(),
    ensures
        ({
            let r = band_path(upper, lower);
            let n = upper.points.len() as int;
            let m = upper.verbs.len() as int;
            let k = lower.verbs.len() as int;
            &&& r.points.take(n) == upper.points
            &&& r.points[n] == lower.points.last()
            &&& r.points.skip(n + 1) == reversed_points(lower, (k - 1) as nat)
            &&& r.verbs.take(m) == upper.verbs
            &&& r.verbs[m] == PathVerb::Line
            &&& forall|i: int| 1 <= i < k ==> r.verbs[m + k - i] == #[trigger] lower.verbs[i]
            &&& r.verbs.len() == m + k + 1
            &&& r.verbs.last() == PathVerb::Close
        }),
{
    let r = band_path(upper, lower);
    let n = upper.points.len() as int;
    let m = upper.verbs.len() as int;
    let k = lower.verbs.len() as int;
    let back = lower.verbs.skip(1).reverse();
    assert(r.points.take(n) =~= upper.points);
    assert(r.points.skip(n + 1) =~= reversed_points(lower, (k - 1) as nat));
    assert(r.verbs.take(m) =~= upper.verbs);
    assert forall|i: int| 1 <= i < k implies r.verbs[m + k - i] == #[trigger] lower.verbs[i] by {
        assert(r.verbs[m + k - i] == back[k - i - 1]);
        assert(back[k - i - 1] == lower.verbs.skip(1)[i - 1]);
    }
}

/// Walked backwards, a segment ends where the one before it ended, and its controls come in the other
/// order.
pub proof fn segments_turn_round(p: Path, n: nat)
    requires
        n + 1 < p.verbs.len(),
    ensures
        ({
            let at = p.verbs.len() - n - 1;
            let from = points_taken(p.verbs, at as nat) as int;
            let before = reversed_points(p, n);
            let after = reversed_points(p, n + 1);
            &&& reversed_points(p, 0) == Seq::<Point>::empty()
            &&& p.verbs[at] == PathVerb::Line ==> after == before.push(p.points[from - 1])
            &&& p.verbs[at] == PathVerb::Quad ==> after == before.push(p.points[from]).push(
                p.points[from - 1],
            )
            &&& p.verbs[at] == PathVerb::Cubic ==> after == before.push(p.points[from + 1]).push(
                p.points[from],
            ).push(p.points[from - 1])
        }),
{
    let at = p.verbs.len() - n - 1;
    let from = points_taken(p.verbs, at as nat) as int;
    let before = reversed_points(p, n);
    let after = reversed_points(p, n + 1);
    assert(p.verbs[at] == PathVerb::Line ==> after =~= before.push(p.points[from - 1]));
    assert(p.verbs[at] == PathVerb::Quad ==> after =~= before.push(p.points[from]).push(
        p.points[from - 1],
    ));
    assert(p.verbs[at] == PathVerb::Cubic ==> after =~= before.push(p.points[from + 1]).push(
        p.points[from],
    ).push(p.points[from - 1]));
}

/// The nodes of a contour are the last points of its verbs.
pub proof fn nodes_are_last_points(p: Path, n: nat)
    requires
        n < p.verbs.len(),
    ensures
        curve_nodes(p, 0) == Seq::<Point>::empty(),
        curve_nodes(p, n + 1).drop_last() == curve_nodes(p, n),
        curve_nodes(p, n + 1).last() == p.points[points_taken(p.verbs, n + 1) - 1],
{
    assert(curve_nodes(p, n + 1).drop_last() =~= curve_nodes(p, n));
}

/// The steps of a path are its verbs with their points, one after the other.
pub proof fn steps_take_their_points_in_order(p: Path, i: int)
    requires
        0 <= i < p.verbs.len(),
    ensures
        ({
            let at = points_taken(p.verbs, i as nat) as int;
            let q = p.points;
            match p.verbs[i] {
                PathVerb::Move => element_at(p, i) == PathElement::MoveTo(q[at]),
                PathVerb::Line => element_at(p, i) == PathElement::LineTo(q[at]),
                PathVerb::Quad => element_at(p, i) == PathElement::QuadTo(q[at], q[at + 1]),
                PathVerb::Cubic => element_at(p, i) == PathElement::CubicTo(
                    q[at],
                    q[at + 1],
                    q[at + 2],
                ),
                PathVerb::Close => element_at(p, i) == PathElement::Close,
            }
        }),
{
}

/// A trim keeps the whole path from 0 to 1 and beyond, nothing where its end is not behind its start, and
/// otherwise the stretch between the two, neither before 0 nor behind 1.
pub proof fn trims_keep_what_lies_between(a: Scalar, b: Scalar)
    requires
        a.finite(),
        b.finite(),
    ensures
        ({
            let one = 0x3ff0_0000_0000_0000int;
            let (s, e) = (a.order(), b.order());
            &&& s <= 0 && e >= one ==> trim_step(a, b) == TrimStep::Whole
            &&& e <= s || e <= 0 || s >= one ==> trim_step(a, b) == TrimStep::Empty
            &&& 0 < s < e <= one ==> trim_step(a, b) == if s < one {
                TrimStep::Cut(a, b)
            } else {
                TrimStep::Empty
            }
            &&& s < 0 < e < one ==> trim_step(a, b) == TrimStep::Cut(num(0), b)
            &&& 0 < s < one < e ==> trim_step(a, b) == TrimStep::Cut(a, num(0x3ff0_0000_0000_0000))
        }),
{
}

/// An arc is drawn about a finite center with a positive radius, and turns once at most.
pub proof fn arcs_turn_once_at_most(
    center: Point,
    radius: Scalar,
    start: Scalar,
    end: Scalar,
    sweep: Scalar,
)
    requires
        !sweep.is_nan_spec(),
    ensures
        arc_fault(center, radius, start, end, sweep) is None <==> {
            &&& center.x.finite() && center.y.finite()
            &&& radius.finite() && radius.order() > 0
            &&& start.finite() && end.finite()
            &&& sweep.magnitude() <= 0x4019_21fb_5444_2d18
        },
{
}

/// A sector lies between two radii that do not cross, has corners that are not negative, and turns once at
/// most.
pub proof fn sectors_lie_between_their_radii(
    center: Point,
    inner: Scalar,
    outer: Scalar,
    start: Scalar,
    end: Scalar,
    corner: Scalar,
    sweep: Scalar,
)
    requires
        !sweep.is_nan_spec(),
    ensures
        sector_fault(center, inner, outer, start, end, corner, sweep) is None <==> {
            &&& center.x.finite() && center.y.finite()
            &&& inner.finite() && outer.finite() && corner.finite()
            &&& start.finite() && end.finite()
            &&& 0 <= inner.order() <= outer.order()
            &&& 0 <= corner.order()
            &&& sweep.magnitude() <= 0x4019_21fb_5444_2d18
        },
{
}

/// Every point of a blended path lies between the points of both paths at its place, at the same progress.
pub proof fn morphs_blend_point_by_point<F: Fn(Scalar, Scalar, Scalar) -> Scalar>(
    blend: F,
    a: Path,
    b: Path,
    progress: Scalar,
    p: Path,
)
    requires
        morphs(blend, a, b, progress, Ok(p)),
    ensures
        ({
            let t = if progress.order() < 0 {
                num(0)
            } else if progress.order() > 0x3ff0_0000_0000_0000 {
                num(0x3ff0_0000_0000_0000)
            } else {
                progress
            };
            &&& p.verbs == a.verbs && p.verbs == b.verbs
            &&& p.points.len() == a.points.len() == b.points.len()
            &&& forall|i: int|
                0 <= i < p.points.len() ==> call_ensures(
                    blend,
                    (a.points[i].x, b.points[i].x, t),
                    (#[trigger] p.points[i]).x,
                ) && call_ensures(blend, (a.points[i].y, b.points[i].y, t), p.points[i].y)
        }),
{
    let t = progress.clamp_spec(num(0), num(0x3ff0_0000_0000_0000));
    let points = choose|points: Seq<Point>| #[trigger]
        blended(blend, a.points, b.points, t, points) && Ok::<Path, GeometryError>(p)
            == crate::path::checked(Path { verbs: a.verbs, points });
    assert forall|i: int| 0 <= i < p.points.len() implies call_ensures(
        blend,
        (a.points[i].x, b.points[i].x, t),
        (#[trigger] p.points[i]).x,
    ) && call_ensures(blend, (a.points[i].y, b.points[i].y, t), p.points[i].y) by {
        assert(crate::path::blended_point(blend, a.points[i], b.points[i], t, points[i]));
    }
}

/// An operand of a polygon operation is one closed ring of four points or more.
pub proof fn operands_are_single_rings(contours: Seq<FlatContour>)
    ensures
        ring_fault(contours) is None <==> contours.len() == 1 && contours[0].closed
            && contours[0].points@.len() >= 4,
        contours.len() != 1 ==> ring_fault(contours) == Some(GeometryError::SingleContourRequired),
        contours.len() == 1 && !contours[0].closed ==> ring_fault(contours) == Some(
            GeometryError::ClosedContourRequired,
        ),
{
}

/// A polygon has the points of its closed contour once each: the last one is left out where it repeats the
/// first.
pub proof fn polygons_do_not_repeat_their_first_point(
    contours: Seq<FlatContour>,
    points: Seq<Point>,
)
    requires
        polygon_of(contours) == Ok::<Seq<Point>, GeometryError>(points),
    ensures
        contours.len() == 1,
        contours[0].closed,
        points.len() >= 3,
        ({
            let all = contours[0].points@;
            if point_eq(all[0], all.last()) {
                all == points.push(all.last())
            } else {
                all == points
            }
        }),
{
    let all = contours[0].points@;
    if point_eq(all[0], all.last()) {
        assert(all =~= points.push(all.last()));
    }
}

/// A ring becomes a closed contour of lines through its points, without the one that repeats the first;
/// one of fewer than four points is dropped.
pub proof fn rings_become_closed_contours(rings: Seq<Vec<Point>>, n: nat)
    requires
        n < rings.len(),
    ensures
        ({
            let before = rings_path(rings, n);
            let after = rings_path(rings, n + 1);
            let ring = rings[n as int]@;
            let v = before.verbs.len() as int;
            let k = ring.len() as int;
            &&& rings_path(rings, 0).verbs.len() == 0 && rings_path(rings, 0).points.len() == 0
            &&& k < 4 ==> after == before
            &&& k >= 4 ==> {
                &&& after.points == before.points + ring.drop_last()
                &&& after.verbs.len() == v + k
                &&& after.verbs.take(v) == before.verbs
                &&& after.verbs[v] == PathVerb::Move
                &&& forall|i: int| v < i < v + k - 1 ==> #[trigger] after.verbs[i] == PathVerb::Line
                &&& after.verbs.last() == PathVerb::Close
            }
        }),
{
    let before = rings_path(rings, n);
    let after = rings_path(rings, n + 1);
    if rings[n as int]@.len() >= 4 {
        assert(after.verbs.take(before.verbs.len() as int) =~= before.verbs);
    }
}

} // verus!
