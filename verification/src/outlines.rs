//! Flattened paths: offsets, boolean operations and path text.

use vstd::prelude::*;

use crate::contours::{contours, contours_of, shapes, Contour, ContourShape, SegmentGeometry};
use crate::path::{
    checked, path_from_multi_polygon, path_seen, point_eq, points_taken, points_taken_grows,
    ring_fault, rings_path, same_point, single_polygon, FlatContour, GeometryError, Path,
    PathBooleanOp, PathData, PathVerb, PATH_CURVE_STEPS,
};
use crate::order::keys_of;
use crate::recording::Point;
use crate::scalar::{num, Scalar, ZERO};
use crate::text::joined;

verus! {

/// Whether these are the points of a segment after its start: the end of a line, or evenly spaced
/// points of a curve, which the host computes by their number.
pub open spec fn drawn<V: Fn(&SegmentGeometry, usize) -> Point>(
    curve: V,
    s: SegmentGeometry,
    piece: Seq<Point>,
) -> bool {
    match s {
        SegmentGeometry::Line { to, .. } => piece == seq![to],
        _ => piece.len() == PATH_CURVE_STEPS && forall|i: int|
            0 <= i < piece.len() ==> call_ensures(
                curve,
                (&s, (i + 1) as usize),
                #[trigger] piece[i],
            ),
    }
}

/// Whether these are the points of each segment of a contour.
pub open spec fn all_drawn<V: Fn(&SegmentGeometry, usize) -> Point>(
    curve: V,
    segments: Seq<SegmentGeometry>,
    pieces: Seq<Seq<Point>>,
) -> bool {
    pieces.len() <= segments.len() && forall|i: int|
        0 <= i < pieces.len() ==> drawn(curve, segments[i], #[trigger] pieces[i])
}

/// Whether a flat contour is a contour, point by point.
pub open spec fn is_flat<V: Fn(&SegmentGeometry, usize) -> Point>(
    curve: V,
    c: ContourShape,
    flat: FlatContour,
) -> bool {
    flat.closed == c.closed && exists|pieces: Seq<Seq<Point>>| #[trigger]
        all_drawn(curve, c.segments, pieces) && pieces.len() == c.segments.len() && flat.points@
            == seq![c.start] + pieces.flatten()
}

/// Whether these are the flat contours of the first contours of a path.
pub open spec fn all_flat<V: Fn(&SegmentGeometry, usize) -> Point>(
    curve: V,
    all: Seq<ContourShape>,
    flat: Seq<FlatContour>,
) -> bool {
    flat.len() <= all.len() && forall|i: int|
        0 <= i < flat.len() ==> is_flat(curve, all[i], #[trigger] flat[i])
}

/// Whether `r` is a path, flattened: one flat contour for each contour of a valid path.
pub open spec fn flattened<V: Fn(&SegmentGeometry, usize) -> Point>(
    curve: V,
    p: Path,
    r: Result<Vec<FlatContour>, GeometryError>,
) -> bool {
    match r {
        Ok(flat) => p.valid() && flat@.len() == contours_of(p).len() && all_flat(
            curve,
            contours_of(p),
            flat@,
        ),
        Err(e) => p.fault() == Some(e),
    }
}

fn draw<V: Fn(&SegmentGeometry, usize) -> Point>(
    curve: &V,
    s: &SegmentGeometry,
    out: &mut Vec<Point>,
)
    requires
        forall|s: SegmentGeometry, i: usize| call_requires(*curve, (&s, i)),
    ensures
        exists|piece: Seq<Point>| #[trigger]
            drawn(*curve, *s, piece) && final(out)@ == old(out)@ + piece,
{
    let ghost start = out@;
    match s {
        SegmentGeometry::Line { to, .. } => {
            out.push(*to);
            let ghost piece = seq![*to];
            assert(drawn(*curve, *s, piece) && out@ =~= start + piece);
        },
        _ => {
            let ghost mut piece: Seq<Point> = Seq::empty();
            let mut i: usize = 0;
            assert(out@ =~= start + piece);
            while i < PATH_CURVE_STEPS
                invariant
                    forall|s: SegmentGeometry, i: usize| call_requires(*curve, (&s, i)),
                    i <= PATH_CURVE_STEPS,
                    piece.len() == i,
                    out@ == start + piece,
                    forall|k: int|
                        0 <= k < piece.len() ==> call_ensures(
                            *curve,
                            (s, (k + 1) as usize),
                            #[trigger] piece[k],
                        ),
                decreases PATH_CURVE_STEPS - i,
            {
                let q = curve(s, i + 1);
                out.push(q);
                proof {
                    piece = piece.push(q);
                }
                assert(out@ =~= start + piece);
                i = i + 1;
            }
            assert(drawn(*curve, *s, piece));
        },
    }
}

fn flatten_contour<V: Fn(&SegmentGeometry, usize) -> Point>(curve: &V, c: &Contour) -> (r: FlatContour)
    requires
        forall|s: SegmentGeometry, i: usize| call_requires(*curve, (&s, i)),
    ensures
        is_flat(*curve, c@, r),
{
    let mut points: Vec<Point> = Vec::new();
    points.push(c.start);
    let ghost mut pieces: Seq<Seq<Point>> = Seq::empty();
    let mut i: usize = 0;
    assert(points@ =~= seq![c.start] + pieces.flatten());
    while i < c.segments.len()
        invariant
            forall|s: SegmentGeometry, i: usize| call_requires(*curve, (&s, i)),
            i <= c.segments@.len(),
            pieces.len() == i,
            all_drawn(*curve, c.segments@, pieces),
            points@ == seq![c.start] + pieces.flatten(),
        decreases c.segments@.len() - i,
    {
        let ghost before = points@;
        draw(curve, &c.segments[i], &mut points);
        proof {
            let piece = choose|piece: Seq<Point>| #[trigger]
                drawn(*curve, c.segments@[i as int], piece) && points@ == before + piece;
            let now = pieces.push(piece);
            pieces.lemma_flatten_push(piece);
            assert(points@ =~= seq![c.start] + now.flatten());
            assert forall|k: int| 0 <= k < now.len() implies drawn(
                *curve,
                c.segments@[k],
                #[trigger] now[k],
            ) by {
                if k < i {
                    assert(now[k] == pieces[k]);
                }
            }
            pieces = now;
        }
        i = i + 1;
    }
    assert(all_drawn(*curve, c@.segments, pieces));
    FlatContour { points, closed: c.closed }
}

/// Flattens a valid path. `curve` is the host's point of a curve at a step.
pub fn flatten<V: Fn(&SegmentGeometry, usize) -> Point>(curve: &V, path: &PathData) -> (r: Result<
    Vec<FlatContour>,
    GeometryError,
>)
    requires
        forall|s: SegmentGeometry, i: usize| call_requires(*curve, (&s, i)),
    ensures
        flattened(*curve, path@, r),
{
    let all = match contours(path) {
        Ok(v) => v,
        Err(e) => {
            return Err(e);
        },
    };
    let mut out: Vec<FlatContour> = Vec::new();
    let mut i: usize = 0;
    while i < all.len()
        invariant
            forall|s: SegmentGeometry, i: usize| call_requires(*curve, (&s, i)),
            i <= all@.len(),
            shapes(all@) == contours_of(path@),
            out@.len() == i,
            all_flat(*curve, contours_of(path@), out@),
        decreases all@.len() - i,
    {
        let ghost before = out@;
        let flat = flatten_contour(curve, &all[i]);
        assert(shapes(all@)[i as int] == all@[i as int]@);
        out.push(flat);
        assert forall|k: int| 0 <= k < out@.len() implies is_flat(
            *curve,
            contours_of(path@)[k],
            #[trigger] out@[k],
        ) by {
            if k < i {
                assert(out@[k] == before[k]);
            }
        }
        i = i + 1;
    }
    assert(shapes(all@).len() == all@.len());
    Ok(out)
}

/// The arithmetic of an offset: the unit normal of a line that has a length, the normal at a joint of
/// two lines, and a point moved along a normal.
pub struct OffsetTools<'a, N, J, M> {
    pub normal: &'a N,
    pub joint: &'a J,
    pub shift: &'a M,
}

pub open spec fn offset_ready<
    N: Fn(Point, Point) -> Option<Point>,
    J: Fn(Point, Point) -> Point,
    M: Fn(Point, Point, Scalar) -> Point,
>(t: OffsetTools<N, J, M>) -> bool {
    &&& forall|a: Point, b: Point| call_requires(*t.normal, (a, b))
    &&& forall|a: Point, b: Point| call_requires(*t.joint, (a, b))
    &&& forall|a: Point, b: Point, d: Scalar| call_requires(*t.shift, (a, b, d))
}

/// The points that an offset moves: a closed contour without its repeated closing point.
pub open spec fn offset_source(c: FlatContour) -> Seq<Point> {
    let all = c.points@;
    if c.closed && all.len() > 1 && point_eq(all[0], all.last()) {
        all.drop_last()
    } else {
        all
    }
}

/// The line before a point.
pub open spec fn line_before(s: Seq<Point>, closed: bool, i: int) -> Option<(Point, Point)> {
    if i > 0 {
        Some((s[i - 1], s[i]))
    } else if closed {
        Some((s[s.len() - 1], s[i]))
    } else {
        None
    }
}

/// The line after a point.
pub open spec fn line_after(s: Seq<Point>, closed: bool, i: int) -> Option<(Point, Point)> {
    if i + 1 < s.len() {
        Some((s[i], s[i + 1]))
    } else if closed {
        Some((s[i], s[0]))
    } else {
        None
    }
}

pub open spec fn normal_given<N: Fn(Point, Point) -> Option<Point>>(
    normal: N,
    line: Option<(Point, Point)>,
    r: Option<Point>,
) -> bool {
    match line {
        Some(l) => call_ensures(normal, (l.0, l.1), r),
        None => r is None,
    }
}

/// Whether a point moves to `r` between two normals; nothing where there is none.
pub open spec fn shifted<
    N: Fn(Point, Point) -> Option<Point>,
    J: Fn(Point, Point) -> Point,
    M: Fn(Point, Point, Scalar) -> Point,
>(
    t: OffsetTools<N, J, M>,
    at: Point,
    distance: Scalar,
    before: Option<Point>,
    after: Option<Point>,
    r: Option<Point>,
) -> bool {
    match (before, after) {
        (None, None) => r is None,
        (Some(n), None) => r matches Some(q) && call_ensures(*t.shift, (at, n, distance), q),
        (None, Some(n)) => r matches Some(q) && call_ensures(*t.shift, (at, n, distance), q),
        (Some(a), Some(b)) => r matches Some(q) && exists|n: Point| #[trigger]
            call_ensures(*t.joint, (a, b), n) && call_ensures(*t.shift, (at, n, distance), q),
    }
}

/// Whether a point of a contour moves to `r`.
pub open spec fn offset_point<
    N: Fn(Point, Point) -> Option<Point>,
    J: Fn(Point, Point) -> Point,
    M: Fn(Point, Point, Scalar) -> Point,
>(
    t: OffsetTools<N, J, M>,
    s: Seq<Point>,
    closed: bool,
    distance: Scalar,
    i: int,
    r: Option<Point>,
) -> bool {
    exists|before: Option<Point>, after: Option<Point>|
        #![trigger normal_given(*t.normal, line_before(s, closed, i), before), normal_given(*t.normal, line_after(s, closed, i), after)]
        normal_given(*t.normal, line_before(s, closed, i), before) && normal_given(
            *t.normal,
            line_after(s, closed, i),
            after,
        ) && shifted(t, s[i], distance, before, after, r)
}

/// Whether the first points of a contour move to these.
pub open spec fn offset_points<
    N: Fn(Point, Point) -> Option<Point>,
    J: Fn(Point, Point) -> Point,
    M: Fn(Point, Point, Scalar) -> Point,
>(
    t: OffsetTools<N, J, M>,
    s: Seq<Point>,
    closed: bool,
    distance: Scalar,
    moved: Seq<Point>,
) -> bool {
    moved.len() <= s.len() && forall|i: int|
        0 <= i < moved.len() ==> offset_point(t, s, closed, distance, i, Some(#[trigger] moved[i]))
}

/// Whether `r` is an offset contour. One without a direction at some point is degenerate.
pub open spec fn offset_given<
    N: Fn(Point, Point) -> Option<Point>,
    J: Fn(Point, Point) -> Point,
    M: Fn(Point, Point, Scalar) -> Point,
>(
    t: OffsetTools<N, J, M>,
    c: FlatContour,
    distance: Scalar,
    r: Result<Seq<Point>, GeometryError>,
) -> bool {
    let s = offset_source(c);
    if s.len() < 2 {
        r == Err::<Seq<Point>, GeometryError>(GeometryError::DegenerateContour)
    } else {
        match r {
            Ok(moved) => moved.len() == s.len() && offset_points(t, s, c.closed, distance, moved),
            Err(e) => e == GeometryError::DegenerateContour && exists|moved: Seq<Point>| #[trigger]
                offset_points(t, s, c.closed, distance, moved) && moved.len() < s.len()
                    && offset_point(t, s, c.closed, distance, moved.len() as int, None),
        }
    }
}

pub open spec fn points_seen(r: Result<Vec<Point>, GeometryError>) -> Result<
    Seq<Point>,
    GeometryError,
> {
    match r {
        Ok(v) => Ok(v@),
        Err(e) => Err(e),
    }
}

fn move_point<
    N: Fn(Point, Point) -> Option<Point>,
    J: Fn(Point, Point) -> Point,
    M: Fn(Point, Point, Scalar) -> Point,
>(t: &OffsetTools<N, J, M>, s: &Vec<Point>, n: usize, closed: bool, distance: Scalar, i: usize) -> (r:
    Option<Point>)
    requires
        offset_ready(*t),
        2 <= n <= s@.len(),
        i < n,
    ensures
        offset_point(*t, s@.take(n as int), closed, distance, i as int, r),
{
    let ghost src = s@.take(n as int);
    let normal = t.normal;
    let joint = t.joint;
    let shift = t.shift;
    let before = if i > 0 {
        normal(s[i - 1], s[i])
    } else if closed {
        normal(s[n - 1], s[i])
    } else {
        None
    };
    assert(normal_given(*t.normal, line_before(src, closed, i as int), before));
    let after = if i + 1 < n {
        normal(s[i], s[i + 1])
    } else if closed {
        normal(s[i], s[0])
    } else {
        None
    };
    assert(normal_given(*t.normal, line_after(src, closed, i as int), after));
    let r = match (before, after) {
        (None, None) => None,
        (Some(n), None) => Some(shift(s[i], n, distance)),
        (None, Some(n)) => Some(shift(s[i], n, distance)),
        (Some(a), Some(b)) => {
            let n = joint(a, b);
            let q = shift(s[i], n, distance);
            assert(call_ensures(*t.joint, (a, b), n));
            Some(q)
        },
    };
    assert(shifted(*t, src[i as int], distance, before, after, r));
    r
}

/// Moves a flat contour sideways.
pub fn offset_contour<
    N: Fn(Point, Point) -> Option<Point>,
    J: Fn(Point, Point) -> Point,
    M: Fn(Point, Point, Scalar) -> Point,
>(t: &OffsetTools<N, J, M>, c: &FlatContour, distance: Scalar) -> (r: Result<
    Vec<Point>,
    GeometryError,
>)
    requires
        offset_ready(*t),
    ensures
        offset_given(*t, *c, distance, points_seen(r)),
{
    let all: usize = c.points.len();
    let n: usize = if c.closed && all > 1 && same_point(&c.points[0], &c.points[all - 1]) {
        all - 1
    } else {
        all
    };
    let ghost src = offset_source(*c);
    assert(src =~= c.points@.take(n as int));
    if n < 2 {
        return Err(GeometryError::DegenerateContour);
    }
    let mut out: Vec<Point> = Vec::new();
    let mut i: usize = 0;
    while i < n
        invariant
            offset_ready(*t),
            2 <= n <= c.points@.len(),
            src == offset_source(*c),
            src == c.points@.take(n as int),
            i <= n,
            out@.len() == i,
            offset_points(*t, src, c.closed, distance, out@),
        decreases n - i,
    {
        let ghost before = out@;
        match move_point(t, &c.points, n, c.closed, distance, i) {
            None => {
                assert(offset_points(*t, src, c.closed, distance, before));
                return Err(GeometryError::DegenerateContour);
            },
            Some(q) => {
                out.push(q);
                assert forall|k: int| 0 <= k < out@.len() implies offset_point(
                    *t,
                    src,
                    c.closed,
                    distance,
                    k,
                    Some(#[trigger] out@[k]),
                ) by {
                    if k < i {
                        assert(out@[k] == before[k]);
                    }
                }
            },
        }
        i = i + 1;
    }
    Ok(out)
}

/// A polyline as a path.
pub open spec fn polyline(points: Seq<Point>, closed: bool) -> Path {
    let lines = Seq::new((points.len() - 1) as nat, |i: int| PathVerb::Line);
    let verbs = seq![PathVerb::Move] + lines;
    Path { verbs: if closed { verbs.push(PathVerb::Close) } else { verbs }, points }
}

/// The path of the first `n` polylines.
pub open spec fn polylines(lines: Seq<(Seq<Point>, bool)>, n: nat) -> Path
    decreases n,
{
    if n == 0 {
        Path { verbs: Seq::empty(), points: Seq::empty() }
    } else {
        let rest = polylines(lines, (n - 1) as nat);
        let last = polyline(lines[n - 1].0, lines[n - 1].1);
        Path { verbs: rest.verbs + last.verbs, points: rest.points + last.points }
    }
}

/// Whether the first contours of a path move to these polylines.
pub open spec fn offsets_given<
    N: Fn(Point, Point) -> Option<Point>,
    J: Fn(Point, Point) -> Point,
    M: Fn(Point, Point, Scalar) -> Point,
>(
    t: OffsetTools<N, J, M>,
    flat: Seq<FlatContour>,
    distance: Scalar,
    lines: Seq<(Seq<Point>, bool)>,
) -> bool {
    lines.len() <= flat.len() && forall|i: int|
        0 <= i < lines.len() ==> (#[trigger] lines[i]).1 == flat[i].closed && offset_given(
            t,
            flat[i],
            distance,
            Ok(lines[i].0),
        )
}

/// Whether `r` is an offset path: each contour moved, or the first failure.
pub open spec fn path_offset<
    V: Fn(&SegmentGeometry, usize) -> Point,
    N: Fn(Point, Point) -> Option<Point>,
    J: Fn(Point, Point) -> Point,
    M: Fn(Point, Point, Scalar) -> Point,
>(
    curve: V,
    t: OffsetTools<N, J, M>,
    p: Path,
    distance: Scalar,
    r: Result<Path, GeometryError>,
) -> bool {
    if !distance.finite() {
        r == Err::<Path, GeometryError>(GeometryError::NonFinite)
    } else if distance.eq_spec(num(ZERO)) {
        r == Ok::<Path, GeometryError>(p)
    } else {
        exists|flat: Result<Vec<FlatContour>, GeometryError>| #[trigger]
            flattened(curve, p, flat) && match flat {
                Err(e) => r == Err::<Path, GeometryError>(e),
                Ok(flat) => some_offsets(t, flat@, distance, r),
            }
    }
}

pub open spec fn some_offsets<
    N: Fn(Point, Point) -> Option<Point>,
    J: Fn(Point, Point) -> Point,
    M: Fn(Point, Point, Scalar) -> Point,
>(
    t: OffsetTools<N, J, M>,
    flat: Seq<FlatContour>,
    distance: Scalar,
    r: Result<Path, GeometryError>,
) -> bool {
    exists|lines: Seq<(Seq<Point>, bool)>| #[trigger]
        offsets_given(t, flat, distance, lines) && if lines.len() == flat.len() {
            r == checked(polylines(lines, lines.len()))
        } else {
            r matches Err(e) && offset_given(t, flat[lines.len() as int], distance, Err(e))
        }
}

proof fn polylines_prefix(lines: Seq<(Seq<Point>, bool)>, next: (Seq<Point>, bool), n: nat)
    requires
        n <= lines.len(),
    ensures
        polylines(lines.push(next), n) == polylines(lines, n),
    decreases n,
{
    if n > 0 {
        polylines_prefix(lines, next, (n - 1) as nat);
    }
}

fn put_polyline(verbs: &mut Vec<PathVerb>, points: &mut Vec<Point>, line: &Vec<Point>, closed: bool)
    requires
        line@.len() >= 2,
    ensures
        final(verbs)@ == old(verbs)@ + polyline(line@, closed).verbs,
        final(points)@ == old(points)@ + line@,
{
    let ghost v = verbs@;
    let ghost p = points@;
    verbs.push(PathVerb::Move);
    points.push(line[0]);
    let mut i: usize = 1;
    assert(points@ =~= p + line@.take(1));
    assert(verbs@ =~= v + (seq![PathVerb::Move] + Seq::new(0, |i: int| PathVerb::Line)));
    while i < line.len()
        invariant
            1 <= i <= line@.len(),
            points@ == p + line@.take(i as int),
            verbs@ == v + (seq![PathVerb::Move] + Seq::new(
                (i - 1) as nat,
                |i: int| PathVerb::Line,
            )),
        decreases line@.len() - i,
    {
        verbs.push(PathVerb::Line);
        points.push(line[i]);
        i = i + 1;
        assert(points@ =~= p + line@.take(i as int));
        assert(verbs@ =~= v + (seq![PathVerb::Move] + Seq::new(
            (i - 1) as nat,
            |i: int| PathVerb::Line,
        )));
    }
    assert(line@.take(i as int) =~= line@);
    if closed {
        verbs.push(PathVerb::Close);
    }
    assert(verbs@ =~= v + polyline(line@, closed).verbs);
}

impl PathData {
    /// Moves a path sideways. Curves are flattened, joints mitered by the host.
    pub fn offset_path<
        V: Fn(&SegmentGeometry, usize) -> Point,
        N: Fn(Point, Point) -> Option<Point>,
        J: Fn(Point, Point) -> Point,
        M: Fn(Point, Point, Scalar) -> Point,
    >(&self, curve: &V, t: &OffsetTools<N, J, M>, distance: Scalar) -> (r: Result<
        PathData,
        GeometryError,
    >)
        requires
            forall|s: SegmentGeometry, i: usize| call_requires(*curve, (&s, i)),
            offset_ready(*t),
        ensures
            path_offset(*curve, *t, self@, distance, path_seen(r)),
    {
        if !distance.is_finite() {
            return Err(GeometryError::NonFinite);
        }
        if distance.eq_value(Scalar::from_bits(ZERO)) {
            return Ok(self.duplicate());
        }
        let told = flatten(curve, self);
        let ghost seen = told;
        assert(flattened(*curve, self@, seen));
        let flat = match told {
            Ok(v) => v,
            Err(e) => {
                return Err(e);
            },
        };
        let ghost mut lines: Seq<(Seq<Point>, bool)> = Seq::empty();
        let mut verbs: Vec<PathVerb> = Vec::new();
        let mut points: Vec<Point> = Vec::new();
        let mut i: usize = 0;
        assert(verbs@ =~= polylines(lines, 0).verbs);
        assert(points@ =~= polylines(lines, 0).points);
        while i < flat.len()
            invariant
                offset_ready(*t),
                distance.finite(),
                !distance.eq_spec(num(ZERO)),
                flattened(*curve, self@, seen),
                seen == Ok::<Vec<FlatContour>, GeometryError>(flat),
                i <= flat@.len(),
                lines.len() == i,
                offsets_given(*t, flat@, distance, lines),
                verbs@ == polylines(lines, i as nat).verbs,
                points@ == polylines(lines, i as nat).points,
            decreases flat@.len() - i,
        {
            match offset_contour(t, &flat[i], distance) {
                Err(e) => {
                    assert(offsets_given(*t, flat@, distance, lines));
                    assert(some_offsets(*t, flat@, distance, Err(e)));
                    return Err(e);
                },
                Ok(line) => {
                    let closed = flat[i].closed;
                    put_polyline(&mut verbs, &mut points, &line, closed);
                    proof {
                        let next = (line@, closed);
                        polylines_prefix(lines, next, i as nat);
                        let now = lines.push(next);
                        assert forall|k: int| 0 <= k < now.len() implies (#[trigger] now[k]).1
                            == flat@[k].closed && offset_given(
                            *t,
                            flat@[k],
                            distance,
                            Ok(now[k].0),
                        ) by {
                            if k < i {
                                assert(now[k] == lines[k]);
                            }
                        }
                        lines = now;
                    }
                },
            }
            i = i + 1;
        }
        let ghost want = polylines(lines, lines.len());
        let r = PathData::new(verbs, points);
        assert(path_seen(r) == checked(want));
        assert(offsets_given(*t, flat@, distance, lines));
        assert(some_offsets(*t, flat@, distance, path_seen(r)));
        r
    }

    /// The polygon operation on two paths of one closed contour each. `combine` is the host's operation
    /// on rings.
    pub fn boolean<
        V: Fn(&SegmentGeometry, usize) -> Point,
        B: Fn(&Vec<Point>, &Vec<Point>, PathBooleanOp) -> Vec<Vec<Point>>,
    >(&self, curve: &V, combine: &B, other: &PathData, op: PathBooleanOp) -> (r: Result<
        PathData,
        GeometryError,
    >)
        requires
            forall|s: SegmentGeometry, i: usize| call_requires(*curve, (&s, i)),
            forall|a: Vec<Point>, b: Vec<Point>, op: PathBooleanOp|
                call_requires(*combine, (&a, &b, op)),
        ensures
            combined(*curve, *combine, self@, other@, op, path_seen(r)),
    {
        let left = flatten(curve, self);
        assert(flattened(*curve, self@, left));
        let first = match &left {
            Err(e) => {
                return Err(*e);
            },
            Ok(flat) => match single_polygon(flat) {
                Err(e) => {
                    assert(ring_read(left) == Err::<Vec<Point>, GeometryError>(e));
                    return Err(e);
                },
                Ok(ring) => ring,
            },
        };
        let right = flatten(curve, other);
        assert(flattened(*curve, other@, right));
        let second = match &right {
            Err(e) => {
                return Err(*e);
            },
            Ok(flat) => match single_polygon(flat) {
                Err(e) => {
                    assert(ring_read(right) == Err::<Vec<Point>, GeometryError>(e));
                    return Err(e);
                },
                Ok(ring) => ring,
            },
        };
        assert(ring_read(left) == Ok::<Vec<Point>, GeometryError>(*first));
        assert(ring_read(right) == Ok::<Vec<Point>, GeometryError>(*second));
        let rings = combine(first, second, op);
        let r = path_from_multi_polygon(&rings);
        assert(call_ensures(*combine, (first, second, op), rings));
        assert(path_seen(r) == checked(rings_path(rings@, rings@.len())));
        r
    }
}

/// The ring of a flattened path.
pub open spec fn ring_read(flat: Result<Vec<FlatContour>, GeometryError>) -> Result<
    Vec<Point>,
    GeometryError,
> {
    match flat {
        Err(e) => Err(e),
        Ok(v) => match ring_fault(v@) {
            Some(e) => Err(e),
            None => Ok(v@[0].points),
        },
    }
}

/// Whether `r` is the polygon operation on two paths: the first fault of either, or the path around
/// the rings that the host computes.
pub open spec fn combined<
    V: Fn(&SegmentGeometry, usize) -> Point,
    B: Fn(&Vec<Point>, &Vec<Point>, PathBooleanOp) -> Vec<Vec<Point>>,
>(
    curve: V,
    combine: B,
    a: Path,
    b: Path,
    op: PathBooleanOp,
    r: Result<Path, GeometryError>,
) -> bool {
    exists|left: Result<Vec<FlatContour>, GeometryError>| #[trigger]
        flattened(curve, a, left) && match ring_read(left) {
            Err(e) => r == Err::<Path, GeometryError>(e),
            Ok(first) => exists|right: Result<Vec<FlatContour>, GeometryError>| #[trigger]
                flattened(curve, b, right) && match ring_read(right) {
                    Err(e) => r == Err::<Path, GeometryError>(e),
                    Ok(second) => exists|rings: Vec<Vec<Point>>| #[trigger]
                        call_ensures(combine, (&first, &second, op), rings) && r == checked(
                            rings_path(rings@, rings@.len()),
                        ),
                },
        }
}

/// The letter of a verb in path text.
pub open spec fn letter(v: PathVerb) -> Seq<char> {
    match v {
        PathVerb::Move => "M"@,
        PathVerb::Line => "L"@,
        PathVerb::Quad => "Q"@,
        PathVerb::Cubic => "C"@,
        PathVerb::Close => "Z"@,
    }
}

/// The texts of `n` points from `at` on, each coordinate behind a space.
pub open spec fn points_text(xs: Seq<Seq<char>>, ys: Seq<Seq<char>>, at: int, n: nat) -> Seq<char>
    decreases n,
{
    if n == 0 {
        Seq::empty()
    } else {
        points_text(xs, ys, at, (n - 1) as nat) + " "@ + xs[at + n - 1] + " "@ + ys[at + n - 1]
    }
}

/// The text of the first `n` verbs of a path, given the texts of its coordinates.
pub open spec fn path_text(
    verbs: Seq<PathVerb>,
    xs: Seq<Seq<char>>,
    ys: Seq<Seq<char>>,
    n: nat,
) -> Seq<char>
    decreases n,
{
    if n == 0 {
        Seq::empty()
    } else {
        let rest = path_text(verbs, xs, ys, (n - 1) as nat);
        let v = verbs[n - 1];
        (if n > 1 {
            rest + " "@
        } else {
            rest
        }) + letter(v) + points_text(
            xs,
            ys,
            points_taken(verbs, (n - 1) as nat) as int,
            v.arity(),
        )
    }
}

/// Whether texts are the host's texts of the coordinates of points.
pub open spec fn coordinates_written<W: Fn(Scalar) -> String>(
    write: W,
    points: Seq<Point>,
    xs: Seq<Seq<char>>,
    ys: Seq<Seq<char>>,
) -> bool {
    &&& xs.len() == points.len() && ys.len() == points.len()
    &&& forall|i: int|
        0 <= i < points.len() ==> number_written(write, points[i].x, #[trigger] xs[i])
    &&& forall|i: int|
        0 <= i < points.len() ==> number_written(write, points[i].y, #[trigger] ys[i])
}

pub open spec fn number_written<W: Fn(Scalar) -> String>(write: W, x: Scalar, text: Seq<char>) -> bool {
    exists|s: String| #[trigger] call_ensures(write, (x,), s) && s@ == text
}

/// Whether `r` is the text of a path.
pub open spec fn path_written<W: Fn(Scalar) -> String>(write: W, p: Path, r: Seq<char>) -> bool {
    exists|xs: Seq<Seq<char>>, ys: Seq<Seq<char>>| #[trigger]
        coordinates_written(write, p.points, xs, ys) && r == path_text(
            p.verbs,
            xs,
            ys,
            p.verbs.len(),
        )
}

fn write_coordinates<W: Fn(Scalar) -> String>(write: &W, points: &Vec<Point>) -> (r: (
    Vec<String>,
    Vec<String>,
))
    requires
        forall|x: Scalar| call_requires(*write, (x,)),
    ensures
        coordinates_written(*write, points@, keys_of(r.0@), keys_of(r.1@)),
{
    let mut xs: Vec<String> = Vec::new();
    let mut ys: Vec<String> = Vec::new();
    let mut i: usize = 0;
    while i < points.len()
        invariant
            forall|x: Scalar| call_requires(*write, (x,)),
            i <= points@.len(),
            xs@.len() == i,
            ys@.len() == i,
            forall|k: int|
                0 <= k < i ==> number_written(*write, points@[k].x, #[trigger] keys_of(xs@)[k]),
            forall|k: int|
                0 <= k < i ==> number_written(*write, points@[k].y, #[trigger] keys_of(ys@)[k]),
        decreases points@.len() - i,
    {
        let ghost old_xs = xs@;
        let ghost old_ys = ys@;
        let x = write(points[i].x);
        let y = write(points[i].y);
        assert(number_written(*write, points@[i as int].x, x@));
        assert(number_written(*write, points@[i as int].y, y@));
        xs.push(x);
        ys.push(y);
        assert forall|k: int| 0 <= k < i + 1 implies number_written(
            *write,
            points@[k].x,
            #[trigger] keys_of(xs@)[k],
        ) by {
            if k < i {
                assert(keys_of(xs@)[k] == keys_of(old_xs)[k]);
            }
        }
        assert forall|k: int| 0 <= k < i + 1 implies number_written(
            *write,
            points@[k].y,
            #[trigger] keys_of(ys@)[k],
        ) by {
            if k < i {
                assert(keys_of(ys@)[k] == keys_of(old_ys)[k]);
            }
        }
        i = i + 1;
    }
    (xs, ys)
}

fn verb_letter(v: PathVerb) -> (r: &'static str)
    ensures
        r@ == letter(v),
{
    match v {
        PathVerb::Move => "M",
        PathVerb::Line => "L",
        PathVerb::Quad => "Q",
        PathVerb::Cubic => "C",
        PathVerb::Close => "Z",
    }
}

fn put_points(text: String, xs: &Vec<String>, ys: &Vec<String>, at: usize, n: usize) -> (r: String)
    requires
        at + n <= xs@.len(),
        at + n <= ys@.len(),
    ensures
        r@ == text@ + points_text(keys_of(xs@), keys_of(ys@), at as int, n as nat),
{
    let ghost start = text@;
    let total: usize = xs.len();
    let mut out = text;
    let mut k: usize = 0;
    assert(out@ =~= start + points_text(keys_of(xs@), keys_of(ys@), at as int, 0));
    while k < n
        invariant
            at + n <= total == xs@.len(),
            at + n <= ys@.len(),
            k <= n,
            out@ == start + points_text(keys_of(xs@), keys_of(ys@), at as int, k as nat),
        decreases n - k,
    {
        let ghost before = points_text(keys_of(xs@), keys_of(ys@), at as int, k as nat);
        out = joined(out, " ");
        out = joined(out, xs[at + k].as_str());
        out = joined(out, " ");
        out = joined(out, ys[at + k].as_str());
        assert(keys_of(xs@)[at + k] == xs@[at + k]@);
        assert(keys_of(ys@)[at + k] == ys@[at + k]@);
        k = k + 1;
        assert(out@ =~= start + points_text(keys_of(xs@), keys_of(ys@), at as int, k as nat));
    }
    out
}

impl PathData {
    /// The path as SVG path text. `write` is the host's text of a number.
    pub fn to_svg_path<W: Fn(Scalar) -> String>(&self, write: &W) -> (r: String)
        requires
            forall|x: Scalar| call_requires(*write, (x,)),
            points_taken(self@.verbs, self@.verbs.len()) <= self@.points.len(),
        ensures
            path_written(*write, self@, r@),
    {
        let texts = write_coordinates(write, &self.points);
        let xs = &texts.0;
        let ys = &texts.1;
        let ghost xt = keys_of(xs@);
        let ghost yt = keys_of(ys@);
        assert(coordinates_written(*write, self@.points, xt, yt));
        assert(xt.len() == xs@.len() && yt.len() == ys@.len());
        let total: usize = xs.len();
        let mut out: String = "".to_owned();
        let mut at: usize = 0;
        let mut i: usize = 0;
        proof {
            reveal_strlit("");
            assert(out@ =~= path_text(self@.verbs, xt, yt, 0));
        }
        while i < self.verbs.len()
            invariant
                i <= self.verbs@.len(),
                xt == keys_of(xs@),
                yt == keys_of(ys@),
                xs@.len() == self.points@.len(),
                ys@.len() == self.points@.len(),
                total == self.points@.len(),
                points_taken(self@.verbs, self@.verbs.len()) <= self@.points.len(),
                at == points_taken(self@.verbs, i as nat),
                out@ == path_text(self@.verbs, xt, yt, i as nat),
            decreases self.verbs@.len() - i,
        {
            proof {
                points_taken_grows(self@.verbs, (i + 1) as nat, self@.verbs.len());
            }
            let v = self.verbs[i];
            if i > 0 {
                out = joined(out, " ");
            }
            out = joined(out, verb_letter(v));
            out = put_points(out, xs, ys, at, v.point_count());
            at = at + v.point_count();
            i = i + 1;
        }
        out
    }
}

} // verus!
