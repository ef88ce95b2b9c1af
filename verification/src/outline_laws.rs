//! Paths drawn out: which segments a contour has, how it is flattened, moved aside, cut and written down.

use vstd::prelude::*;

use crate::contours::{contours_of, walked, ContourShape, SegmentGeometry};
use crate::outlines::{
    drawn, is_flat, line_after, line_before, normal_given, offset_point, offset_source, path_offset,
    path_text, points_text, polyline, polylines, OffsetTools,
};
use crate::path::{point_eq, points_taken, FlatContour, GeometryError, Path, PathVerb};
use crate::pieces::piece_of;
use crate::recording::Point;
use crate::scalar::{num, Scalar};

verus! {

/// Before the first verb nothing is drawn and the pen is at the origin.
pub proof fn walks_begin_at_the_origin(p: Path)
    ensures
        walked(p, 0).done.len() == 0,
        walked(p, 0).open is None,
        walked(p, 0).pen.x == num(0) && walked(p, 0).pen.y == num(0),
{
}

/// A move ends the contour that is being drawn and begins another one where it leads.
pub proof fn moves_begin_a_contour(p: Path, n: nat)
    requires
        n < p.verbs.len(),
        p.verbs[n as int] == PathVerb::Move,
    ensures
        ({
            let (w, v) = (walked(p, n), walked(p, n + 1));
            let to = p.points[points_taken(p.verbs, n) as int];
            &&& v.pen == to
            &&& v.open is Some
            &&& v.open->0.start == to
            &&& v.open->0.segments.len() == 0
            &&& !v.open->0.closed
            &&& w.open is None ==> v.done == w.done
            &&& w.open is Some ==> v.done == w.done.push(w.open->0)
        }),
{
}

/// Lines and curves go from the pen through their controls to their last point, and take the pen there.
pub proof fn segments_go_from_the_pen(p: Path, n: nat)
    requires
        n < p.verbs.len(),
        walked(p, n).open is Some,
        p.verbs[n as int] != PathVerb::Move,
        p.verbs[n as int] != PathVerb::Close,
    ensures
        ({
            let (w, v) = (walked(p, n), walked(p, n + 1));
            let at = points_taken(p.verbs, n) as int;
            let segment = v.open->0.segments.last();
            &&& v.done == w.done
            &&& v.open is Some
            &&& v.open->0.start == w.open->0.start
            &&& v.open->0.closed == w.open->0.closed
            &&& v.open->0.segments.drop_last() == w.open->0.segments
            &&& p.verbs[n as int] == PathVerb::Line ==> v.pen == p.points[at] && segment == (
            SegmentGeometry::Line { from: w.pen, to: p.points[at] })
            &&& p.verbs[n as int] == PathVerb::Quad ==> v.pen == p.points[at + 1] && segment == (
            SegmentGeometry::Quad { from: w.pen, control: p.points[at], to: p.points[at + 1] })
            &&& p.verbs[n as int] == PathVerb::Cubic ==> v.pen == p.points[at + 2] && segment == (
            SegmentGeometry::Cubic {
                from: w.pen,
                control_1: p.points[at],
                control_2: p.points[at + 1],
                to: p.points[at + 2],
            })
        }),
{
    let (w, v) = (walked(p, n), walked(p, n + 1));
    assert(v.open->0.segments.drop_last() =~= w.open->0.segments);
}

/// A close leads the pen back to where its contour began, by a line where it is not there already.
pub proof fn closes_lead_back(p: Path, n: nat)
    requires
        n < p.verbs.len(),
        walked(p, n).open is Some,
        p.verbs[n as int] == PathVerb::Close,
    ensures
        ({
            let (w, v) = (walked(p, n), walked(p, n + 1));
            let start = w.open->0.start;
            &&& v.done == w.done
            &&& v.pen == start
            &&& v.open is Some && v.open->0.start == start && v.open->0.closed
            &&& point_eq(w.pen, start) ==> v.open->0.segments == w.open->0.segments
            &&& !point_eq(w.pen, start) ==> v.open->0.segments == w.open->0.segments.push(
                SegmentGeometry::Line { from: w.pen, to: start },
            )
        }),
{
}

/// The contours of a path are those that were ended, and the one that was being drawn.
pub proof fn contours_are_all_that_was_drawn(p: Path)
    ensures
        walked(p, p.verbs.len()).open is None ==> contours_of(p) == walked(p, p.verbs.len()).done,
        walked(p, p.verbs.len()).open is Some ==> contours_of(p) == walked(
            p,
            p.verbs.len(),
        ).done.push(walked(p, p.verbs.len()).open->0),
{
}

/// A segment knows its ends and what it adds to a path.
pub proof fn segments_know_their_points(from: Point, a: Point, b: Point, to: Point)
    ensures
        ({
            let line = SegmentGeometry::Line { from, to };
            let quad = SegmentGeometry::Quad { from, control: a, to };
            let cubic = SegmentGeometry::Cubic { from, control_1: a, control_2: b, to };
            &&& line.start() == from && line.end() == to && line.verb() == PathVerb::Line
            &&& quad.start() == from && quad.end() == to && quad.verb() == PathVerb::Quad
            &&& cubic.start() == from && cubic.end() == to && cubic.verb() == PathVerb::Cubic
            &&& line.tail() == seq![to]
            &&& quad.tail() == seq![a, to]
            &&& cubic.tail() == seq![a, b, to]
        }),
{
}

/// Flattened, a line is its end, and a curve is sixteen points on it, in order.
pub proof fn curves_become_sixteen_points<V: Fn(&SegmentGeometry, usize) -> Point>(
    curve: V,
    s: SegmentGeometry,
    piece: Seq<Point>,
)
    requires
        drawn(curve, s, piece),
    ensures
        match s {
            SegmentGeometry::Line { to, .. } => piece.len() == 1 && piece[0] == to,
            _ => piece.len() == 16 && forall|i: int|
                0 <= i < 16 ==> call_ensures(curve, (&s, (i + 1) as usize), #[trigger] piece[i]),
        },
{
}

/// A flat contour begins where the contour does and is closed where it is.
pub proof fn flat_contours_begin_alike<V: Fn(&SegmentGeometry, usize) -> Point>(
    curve: V,
    c: ContourShape,
    flat: FlatContour,
)
    requires
        is_flat(curve, c, flat),
    ensures
        flat.closed == c.closed,
        flat.points@.len() > 0,
        flat.points@[0] == c.start,
        c.segments.len() == 0 ==> flat.points@.len() == 1,
{
    let pieces = choose|pieces: Seq<Seq<Point>>| #[trigger]
        crate::outlines::all_drawn(curve, c.segments, pieces) && pieces.len() == c.segments.len()
            && flat.points@ == seq![c.start] + pieces.flatten();
    if pieces.len() == 0 {
        assert(pieces.flatten() =~= Seq::<Point>::empty());
    }
}

/// Between the lines of a contour a point is moved along the normal of the only one, or along the joint of
/// both normals.
pub proof fn points_move_along_their_normals<
    N: Fn(Point, Point) -> Option<Point>,
    J: Fn(Point, Point) -> Point,
    M: Fn(Point, Point, Scalar) -> Point,
>(
    t: OffsetTools<N, J, M>,
    s: Seq<Point>,
    closed: bool,
    distance: Scalar,
    i: int,
    q: Point,
)
    requires
        0 <= i < s.len(),
        offset_point(t, s, closed, distance, i, Some(q)),
    ensures
        exists|n: Point| #[trigger] call_ensures(*t.shift, (s[i], n, distance), q) && is_normal(
            t,
            s,
            closed,
            i,
            n,
        ),
{
    let (before, after) = choose|before: Option<Point>, after: Option<Point>|
        #![trigger normal_given(*t.normal, line_before(s, closed, i), before), normal_given(*t.normal, line_after(s, closed, i), after)]
        normal_given(*t.normal, line_before(s, closed, i), before) && normal_given(
            *t.normal,
            line_after(s, closed, i),
            after,
        ) && crate::outlines::shifted(t, s[i], distance, before, after, Some(q));
    match (before, after) {
        (Some(a), Some(b)) => {
            let n = choose|n: Point| #[trigger]
                call_ensures(*t.joint, (a, b), n) && call_ensures(*t.shift, (s[i], n, distance), q);
            assert(comes_in(t, s, closed, i, a) && goes_out(t, s, closed, i, b));
            assert(is_normal(t, s, closed, i, n));
        },
        (Some(a), None) => {
            assert(comes_in(t, s, closed, i, a));
            assert(is_normal(t, s, closed, i, a));
        },
        (None, Some(b)) => {
            assert(goes_out(t, s, closed, i, b));
            assert(is_normal(t, s, closed, i, b));
        },
        (None, None) => {},
    }
}

/// Whether a normal is that of the line into a point: from the one before it, round the end where the
/// contour is closed.
pub open spec fn comes_in<
    N: Fn(Point, Point) -> Option<Point>,
    J: Fn(Point, Point) -> Point,
    M: Fn(Point, Point, Scalar) -> Point,
>(t: OffsetTools<N, J, M>, s: Seq<Point>, closed: bool, i: int, n: Point) -> bool {
    ||| i > 0 && call_ensures(*t.normal, (s[i - 1], s[i]), Some(n))
    ||| i == 0 && closed && call_ensures(*t.normal, (s.last(), s[0]), Some(n))
}

/// Whether a normal is that of the line out of a point: to the one behind it, round the end where the
/// contour is closed.
pub open spec fn goes_out<
    N: Fn(Point, Point) -> Option<Point>,
    J: Fn(Point, Point) -> Point,
    M: Fn(Point, Point, Scalar) -> Point,
>(t: OffsetTools<N, J, M>, s: Seq<Point>, closed: bool, i: int, n: Point) -> bool {
    ||| i + 1 < s.len() && call_ensures(*t.normal, (s[i], s[i + 1]), Some(n))
    ||| i + 1 == s.len() && closed && call_ensures(*t.normal, (s[i], s[0]), Some(n))
}

/// Whether a normal is the one that a point is moved along.
pub open spec fn is_normal<
    N: Fn(Point, Point) -> Option<Point>,
    J: Fn(Point, Point) -> Point,
    M: Fn(Point, Point, Scalar) -> Point,
>(t: OffsetTools<N, J, M>, s: Seq<Point>, closed: bool, i: int, n: Point) -> bool {
    ||| comes_in(t, s, closed, i, n)
    ||| goes_out(t, s, closed, i, n)
    ||| exists|a: Point, b: Point|
        #![trigger comes_in(t, s, closed, i, a), goes_out(t, s, closed, i, b)]
        comes_in(t, s, closed, i, a) && goes_out(t, s, closed, i, b) && call_ensures(
            *t.joint,
            (a, b),
            n,
        )
}

/// A closed contour is moved without the point that repeats its first.
pub proof fn repeated_points_are_not_moved(c: FlatContour)
    ensures
        ({
            let all = c.points@;
            let repeats = c.closed && all.len() > 1 && point_eq(all[0], all.last());
            &&& repeats ==> offset_source(c).push(all.last()) == all
            &&& !repeats ==> offset_source(c) == all
        }),
{
    let all = c.points@;
    if c.closed && all.len() > 1 && point_eq(all[0], all.last()) {
        assert(offset_source(c).push(all.last()) =~= all);
    }
}

/// A path that is moved by nothing stays as it is; by no number, it is refused.
pub proof fn paths_stay_without_a_distance<
    V: Fn(&SegmentGeometry, usize) -> Point,
    N: Fn(Point, Point) -> Option<Point>,
    J: Fn(Point, Point) -> Point,
    M: Fn(Point, Point, Scalar) -> Point,
>(
    curve: V,
    t: OffsetTools<N, J, M>,
    p: Path,
    distance: Scalar,
    r: Result<Path, GeometryError>,
)
    requires
        path_offset(curve, t, p, distance, r),
    ensures
        distance.order() == 0 && distance.finite() ==> r == Ok::<Path, GeometryError>(p),
        !distance.finite() ==> r == Err::<Path, GeometryError>(GeometryError::NonFinite),
{
}

/// A polyline is a move, lines, and a close where it is closed, through its points.
pub proof fn polylines_are_lines(points: Seq<Point>, closed: bool, i: int)
    requires
        points.len() > 0,
    ensures
        polyline(points, closed).points == points,
        polyline(points, closed).verbs.len() == points.len() + if closed { 1int } else { 0 },
        polyline(points, closed).verbs[0] == PathVerb::Move,
        0 < i < points.len() ==> polyline(points, closed).verbs[i] == PathVerb::Line,
        closed ==> polyline(points, closed).verbs.last() == PathVerb::Close,
{
}

/// Polylines follow each other.
pub proof fn polylines_follow_each_other(
    lines: Seq<(Seq<Point>, bool)>,
    n: nat,
    points: Seq<Point>,
    closed: bool,
)
    requires
        n < lines.len(),
        lines[n as int] == (points, closed),
    ensures
        polylines(lines, 0).verbs.len() == 0 && polylines(lines, 0).points.len() == 0,
        polylines(lines, n + 1).points == polylines(lines, n).points + points,
        polylines(lines, n + 1).verbs == polylines(lines, n).verbs + polyline(points, closed).verbs,
{
}

/// Written down, a verb is its letter with its coordinates behind it, each behind a blank: M, L, Q, C or Z,
/// behind another blank where it is not the first.
pub proof fn verbs_are_written_by_their_letter(
    verbs: Seq<PathVerb>,
    xs: Seq<Seq<char>>,
    ys: Seq<Seq<char>>,
    n: nat,
)
    requires
        n < verbs.len(),
    ensures
        path_text(verbs, xs, ys, 0) == Seq::<char>::empty(),
        ({
            let at = points_taken(verbs, n) as int;
            let before = if n == 0 {
                Seq::empty()
            } else {
                path_text(verbs, xs, ys, n) + " "@
            };
            let after = path_text(verbs, xs, ys, n + 1);
            let (a, b, c) = (said(xs, ys, at), said(xs, ys, at + 1), said(xs, ys, at + 2));
            match verbs[n as int] {
                PathVerb::Move => after == before + "M"@ + a,
                PathVerb::Line => after == before + "L"@ + a,
                PathVerb::Quad => after == before + "Q"@ + (a + b),
                PathVerb::Cubic => after == before + "C"@ + (a + b + c),
                PathVerb::Close => after == before + "Z"@,
            }
        }),
{
    let at = points_taken(verbs, n) as int;
    let (a, b, c) = (said(xs, ys, at), said(xs, ys, at + 1), said(xs, ys, at + 2));
    reveal_with_fuel(points_text, 4);
    assert(points_text(xs, ys, at, 1) =~= a);
    assert(points_text(xs, ys, at, 2) =~= a + b);
    assert(points_text(xs, ys, at, 3) =~= a + b + c);
    let before = if n == 0 {
        Seq::empty()
    } else {
        path_text(verbs, xs, ys, n) + " "@
    };
    assert(before + "Z"@ + Seq::<char>::empty() =~= before + "Z"@);
    let v = verbs[n as int];
    reveal_with_fuel(path_text, 2);
    assert(path_text(verbs, xs, ys, n + 1) == before + crate::outlines::letter(v) + points_text(
        xs,
        ys,
        at,
        v.arity(),
    ));
}

/// A point as it is written: x, then y, each behind a blank.
pub open spec fn said(xs: Seq<Seq<char>>, ys: Seq<Seq<char>>, i: int) -> Seq<char> {
    " "@ + xs[i] + (" "@ + ys[i])
}

/// A piece of a line lies between the points of the line at its ends, which stand in order from 0 to 1.
pub proof fn pieces_of_lines_are_lines<X: Fn(Point, Point, Scalar) -> Point, Q: Fn(Scalar, Scalar) -> Scalar>(
    mix: X,
    divide: Q,
    from: Point,
    to: Point,
    start: Scalar,
    end: Scalar,
    r: SegmentGeometry,
)
    requires
        0 <= start.order() <= end.order() <= 0x3ff0_0000_0000_0000,
        piece_of(mix, divide, SegmentGeometry::Line { from, to }, start, end, r),
    ensures
        r is Line,
        call_ensures(mix, (from, to, start), r.start()),
        call_ensures(mix, (from, to, end), r.end()),
{
}

/// The first piece of a cubic curve keeps its start; its controls and its end come of halving the sides of
/// the control polygon at the end of the piece, again and again.
pub proof fn first_pieces_of_cubics_keep_their_start<
    X: Fn(Point, Point, Scalar) -> Point,
    Q: Fn(Scalar, Scalar) -> Scalar,
>(
    mix: X,
    divide: Q,
    from: Point,
    a: Point,
    b: Point,
    to: Point,
    end: Scalar,
    r: SegmentGeometry,
)
    requires
        0 <= end.order() <= 0x3ff0_0000_0000_0000,
        piece_of(
            mix,
            divide,
            SegmentGeometry::Cubic { from, control_1: a, control_2: b, to },
            num(0),
            end,
            r,
        ),
    ensures
        r is Cubic,
        r.start() == from,
        exists|p: Point, q: Point, d: Point|
            #![trigger call_ensures(mix, (a, b, end), p), call_ensures(mix, (b, to, end), q), call_ensures(mix, (p, q, end), d)]
            call_ensures(mix, (from, a, end), r->control_1) && call_ensures(mix, (a, b, end), p)
                && call_ensures(mix, (b, to, end), q) && call_ensures(mix, (p, q, end), d)
                && call_ensures(mix, (r->control_1, p, end), r->control_2) && call_ensures(
                mix,
                (r->control_2, d, end),
                r.end(),
            ),
{
    let s = choose|s: crate::pieces::CubicCut| #[trigger]
        crate::pieces::cubic_cut(mix, from, a, b, to, end, s) && r == (SegmentGeometry::Cubic {
            from,
            control_1: s.a,
            control_2: s.d,
            to: s.middle,
        });
    assert(call_ensures(mix, (a, b, end), s.b));
    assert(call_ensures(mix, (b, to, end), s.c));
    assert(call_ensures(mix, (s.b, s.c, end), s.e));
}

} // verus!
