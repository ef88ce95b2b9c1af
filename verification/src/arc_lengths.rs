//! Laws of the arc-length table: trimming a path and sampling it read the same segments at the same
//! parameters.

use vstd::prelude::*;

use crate::contours::{contours_of, SegmentGeometry};
use crate::measure::{
    at_rest, cut_from, found_from, hit, interpolated, larger, no_path, parameter_after,
    parameter_given, path_measured, path_sampled, piece_given, sample_follows, sampled,
    samples_given, segment_at, segment_measured, segments_of, smaller, starts_at, step_end,
    stretch_given, stretch_kept, sums_given, trim_given, with_piece, ArcSample, Calc,
    MeasureTools, MeasuredPath, MeasuredSegment, PathSample,
};
use crate::path::{checked, trim_step, GeometryError, Path};
use crate::recording::Point;
use crate::scalar::{num, Scalar, INFINITY, ONE, ZERO};

verus! {

/// Whether a number is a length: at least zero and not a negative zero.
pub open spec fn is_length(x: Scalar) -> bool {
    x.bits <= INFINITY
}

/// Whether the host's arithmetic has one answer to each task.
pub open spec fn single_valued<C: Fn(&Calc) -> Scalar>(calc: C) -> bool {
    forall|c: Calc, a: Scalar, b: Scalar| #[trigger]
        call_ensures(calc, (&c,), a) && #[trigger] call_ensures(calc, (&c,), b) ==> a == b
}

/// Whether sums of lengths are lengths that do not shrink, and nothing added leaves a sum as it is.
pub open spec fn sums_grow<C: Fn(&Calc) -> Scalar>(calc: C) -> bool {
    forall|a: Scalar, b: Scalar, r: Scalar| #[trigger]
        call_ensures(calc, (&Calc::Sum { a, b },), r) && is_length(a) && is_length(b) ==> {
            &&& is_length(r)
            &&& a.le_spec(r)
            &&& b.le_spec(num(ZERO)) ==> r == a
        }
}

/// Whether a fraction of a length is neither negative nor longer.
pub open spec fn fractions_fit<C: Fn(&Calc) -> Scalar>(calc: C) -> bool {
    forall|a: Scalar, b: Scalar, r: Scalar| #[trigger]
        call_ensures(calc, (&Calc::Product { a, b },), r) && is_length(a) && a.finite() && b.within(
            num(ZERO),
            num(ONE),
        ) ==> r.within(num(ZERO), a)
}

/// Whether a host computes as floating-point arithmetic does, always in the same way.
pub open spec fn computes<
    C: Fn(&Calc) -> Scalar,
    P: Fn(&SegmentGeometry, Scalar) -> Point,
    T: Fn(&SegmentGeometry, Scalar) -> Point,
    S: Fn(&SegmentGeometry, Scalar, Scalar) -> SegmentGeometry,
>(h: MeasureTools<C, P, T, S>) -> bool {
    &&& single_valued(*h.calc)
    &&& sums_grow(*h.calc)
    &&& fractions_fit(*h.calc)
    &&& forall|g: SegmentGeometry, t: Scalar, a: Point, b: Point| #[trigger]
        call_ensures(*h.point, (&g, t), a) && #[trigger] call_ensures(*h.point, (&g, t), b) ==> a
            == b
}

/// Whether a piece of a segment starts and ends exactly where the segment is at its parameters.
pub open spec fn pieces_meet_points<
    C: Fn(&Calc) -> Scalar,
    P: Fn(&SegmentGeometry, Scalar) -> Point,
    T: Fn(&SegmentGeometry, Scalar) -> Point,
    S: Fn(&SegmentGeometry, Scalar, Scalar) -> SegmentGeometry,
>(h: MeasureTools<C, P, T, S>) -> bool {
    forall|g: SegmentGeometry, a: Scalar, b: Scalar, piece: SegmentGeometry| #[trigger]
        call_ensures(*h.piece, (&g, a, b), piece) ==> call_ensures(*h.point, (&g, a), piece.start())
            && call_ensures(*h.point, (&g, b), piece.end())
}

/// Whether a segment has a length.
pub open spec fn extends(m: Seq<MeasuredSegment>, i: int) -> bool {
    !m[i].length.le_spec(num(ZERO))
}

/// Whether segments have lengths that these are the running sums of.
pub open spec fn tabled<C: Fn(&Calc) -> Scalar>(
    calc: C,
    m: Seq<MeasuredSegment>,
    sums: Seq<Scalar>,
) -> bool {
    &&& sums_given(calc, m, sums)
    &&& sums.len() == m.len() + 1
    &&& forall|i: int| 0 <= i < m.len() ==> is_length((#[trigger] m[i]).length)
}

/// Whether a length along a path falls on segment `i` at parameter `t`: on the first segment that
/// reaches it.
pub open spec fn lands<C: Fn(&Calc) -> Scalar>(
    calc: C,
    m: Seq<MeasuredSegment>,
    sums: Seq<Scalar>,
    target: Scalar,
    i: int,
    t: Scalar,
) -> bool {
    &&& 0 <= i < m.len()
    &&& extends(m, i)
    &&& target.le_spec(sums[i + 1])
    &&& forall|j: int| 0 <= j < i && #[trigger] extends(m, j) ==> !target.le_spec(sums[j + 1])
    &&& parameter_after(calc, m[i], sums[i], target, t)
}

proof fn sums_ascend<C: Fn(&Calc) -> Scalar>(
    calc: C,
    m: Seq<MeasuredSegment>,
    sums: Seq<Scalar>,
    i: int,
    j: int,
)
    requires
        sums_grow(calc),
        tabled(calc, m, sums),
        0 <= i <= j < sums.len(),
    ensures
        is_length(sums[i]),
        is_length(sums[j]),
        sums[i].le_spec(sums[j]),
    decreases j,
{
    if j > 0 {
        sums_ascend(calc, m, sums, 0, j - 1);
        assert(call_ensures(calc, (&Calc::Sum { a: sums[j - 1], b: m[j - 1].length },), sums[j]));
        assert(is_length(m[j - 1].length));
        if i < j {
            sums_ascend(calc, m, sums, i, j - 1);
        }
    }
}

/// A segment without length leaves the sum as it is.
proof fn sums_rest<C: Fn(&Calc) -> Scalar>(
    calc: C,
    m: Seq<MeasuredSegment>,
    sums: Seq<Scalar>,
    i: int,
)
    requires
        sums_grow(calc),
        tabled(calc, m, sums),
        0 <= i < m.len(),
        !extends(m, i),
    ensures
        sums[i + 1] == sums[i],
{
    sums_ascend(calc, m, sums, 0, i);
    assert(is_length(m[i].length));
    assert(call_ensures(calc, (&Calc::Sum { a: sums[i + 1 - 1], b: m[i + 1 - 1].length },), sums[i
        + 1]));
}

/// Every sum is that behind the last segment with a length.
proof fn sums_are_reached<C: Fn(&Calc) -> Scalar>(
    calc: C,
    m: Seq<MeasuredSegment>,
    sums: Seq<Scalar>,
    n: int,
)
    requires
        sums_grow(calc),
        tabled(calc, m, sums),
        0 <= n < sums.len(),
    ensures
        sums[n] == num(ZERO) || exists|j: int|
            0 <= j < n && #[trigger] extends(m, j) && sums[j + 1] == sums[n],
    decreases n,
{
    if n > 0 {
        if extends(m, n - 1) {
            assert(sums[n - 1 + 1] == sums[n]);
        } else {
            sums_rest(calc, m, sums, n - 1);
            sums_are_reached(calc, m, sums, n - 1);
            if sums[n] != num(ZERO) {
                let j = choose|j: int|
                    0 <= j < n - 1 && #[trigger] extends(m, j) && sums[j + 1] == sums[n - 1];
                assert(extends(m, j));
            }
        }
    }
}

proof fn parameters_are_single<C: Fn(&Calc) -> Scalar>(
    calc: C,
    m: MeasuredSegment,
    consumed: Scalar,
    length: Scalar,
    s: Scalar,
    t: Scalar,
)
    requires
        single_valued(calc),
        parameter_after(calc, m, consumed, length, s),
        parameter_after(calc, m, consumed, length, t),
    ensures
        s == t,
{
    let d = choose|d: Scalar| #[trigger]
        call_ensures(calc, (&Calc::Difference { a: length, b: consumed },), d) && parameter_given(
            calc,
            m,
            d,
            s,
        );
    let e = choose|d: Scalar| #[trigger]
        call_ensures(calc, (&Calc::Difference { a: length, b: consumed },), d) && parameter_given(
            calc,
            m,
            d,
            t,
        );
    assert(d == e);
    if !m.length.le_spec(num(ZERO)) {
        let target = d.clamp_spec(num(ZERO), m.length);
        let i = step_end(m.samples@, target);
        interpolation_is_single(calc, m.samples@[i - 1], m.samples@[i], target, s, t);
    }
}

proof fn interpolation_is_single<C: Fn(&Calc) -> Scalar>(
    calc: C,
    before: ArcSample,
    after: ArcSample,
    target: Scalar,
    s: Scalar,
    t: Scalar,
)
    requires
        single_valued(calc),
        interpolated(calc, before, after, target, s),
        interpolated(calc, before, after, target, t),
    ensures
        s == t,
{
    let span = choose|span: Scalar| #[trigger]
        call_ensures(calc, (&Calc::Difference { a: after.length, b: before.length },), span)
            && if span.le_spec(num(ZERO)) {
            s == before.t
        } else {
            exists|part: Scalar| #[trigger]
                call_ensures(calc, (&Calc::Difference { a: target, b: before.length },), part)
                    && call_ensures(
                    calc,
                    (&Calc::Between { from: before.t, to: after.t, part, span },),
                    s,
                )
        };
    let other = choose|span: Scalar| #[trigger]
        call_ensures(calc, (&Calc::Difference { a: after.length, b: before.length },), span)
            && if span.le_spec(num(ZERO)) {
            t == before.t
        } else {
            exists|part: Scalar| #[trigger]
                call_ensures(calc, (&Calc::Difference { a: target, b: before.length },), part)
                    && call_ensures(
                    calc,
                    (&Calc::Between { from: before.t, to: after.t, part, span },),
                    t,
                )
        };
    assert(span == other);
    if !span.le_spec(num(ZERO)) {
        let p = choose|part: Scalar| #[trigger]
            call_ensures(calc, (&Calc::Difference { a: target, b: before.length },), part)
                && call_ensures(
                calc,
                (&Calc::Between { from: before.t, to: after.t, part, span },),
                s,
            );
        let q = choose|part: Scalar| #[trigger]
            call_ensures(calc, (&Calc::Difference { a: target, b: before.length },), part)
                && call_ensures(
                calc,
                (&Calc::Between { from: before.t, to: after.t, part, span },),
                t,
            );
        assert(p == q);
    }
}

/// A length falls on one segment, at one parameter.
pub proof fn lengths_land_once<C: Fn(&Calc) -> Scalar>(
    calc: C,
    m: Seq<MeasuredSegment>,
    sums: Seq<Scalar>,
    target: Scalar,
    i: int,
    s: Scalar,
    j: int,
    t: Scalar,
)
    requires
        single_valued(calc),
        lands(calc, m, sums, target, i, s),
        lands(calc, m, sums, target, j, t),
    ensures
        i == j,
        s == t,
{
    assert(extends(m, i) && extends(m, j));
    if i == j {
        parameters_are_single(calc, m[i], sums[i], target, s, t);
    }
}

/// Whether a sample is taken where a length falls.
pub open spec fn taken_at<
    C: Fn(&Calc) -> Scalar,
    P: Fn(&SegmentGeometry, Scalar) -> Point,
    T: Fn(&SegmentGeometry, Scalar) -> Point,
    S: Fn(&SegmentGeometry, Scalar, Scalar) -> SegmentGeometry,
>(
    h: MeasureTools<C, P, T, S>,
    m: Seq<MeasuredSegment>,
    sums: Seq<Scalar>,
    target: Scalar,
    r: PathSample,
) -> bool {
    exists|i: int, t: Scalar| #[trigger]
        lands(*h.calc, m, sums, target, i, t) && call_ensures(
            *h.point,
            (&m[i].geometry, t),
            r.point,
        )
}

proof fn samples_land<
    C: Fn(&Calc) -> Scalar,
    P: Fn(&SegmentGeometry, Scalar) -> Point,
    T: Fn(&SegmentGeometry, Scalar) -> Point,
    S: Fn(&SegmentGeometry, Scalar, Scalar) -> SegmentGeometry,
>(
    h: MeasureTools<C, P, T, S>,
    m: Seq<MeasuredSegment>,
    sums: Seq<Scalar>,
    target: Scalar,
    i: int,
    last: PathSample,
    r: PathSample,
)
    requires
        computes(h),
        tabled(*h.calc, m, sums),
        0 <= i <= m.len(),
        target.le_spec(sums.last()),
        !sums.last().le_spec(num(ZERO)),
        forall|j: int| 0 <= j < i && #[trigger] extends(m, j) ==> !target.le_spec(sums[j + 1]),
        found_from(h, m, target, i, sums[i], last, r),
    ensures
        taken_at(h, m, sums, target, r),
    decreases m.len() - i,
{
    if i >= m.len() {
        sums_are_reached(*h.calc, m, sums, m.len() as int);
        let j = choose|j: int|
            0 <= j < m.len() && #[trigger] extends(m, j) && sums[j + 1] == sums[m.len() as int];
        assert(extends(m, j));
    } else if !extends(m, i) {
        sums_rest(*h.calc, m, sums, i);
        samples_land(h, m, sums, target, i + 1, last, r);
    } else {
        let (end, through) = choose|end: PathSample, through: Scalar|
            #![trigger segment_at(h, m[i], m[i].length, end), call_ensures(*h.calc, (&Calc::Sum { a: sums[i], b: m[i].length },), through)]
            segment_at(h, m[i], m[i].length, end) && call_ensures(
                *h.calc,
                (&Calc::Sum { a: sums[i], b: m[i].length },),
                through,
            ) && if target.le_spec(through) {
                hit(h, m[i], target, sums[i], r)
            } else {
                found_from(h, m, target, i + 1, through, end, r)
            };
        assert(call_ensures(
            *h.calc,
            (&Calc::Sum { a: sums[i + 1 - 1], b: m[i + 1 - 1].length },),
            sums[i + 1],
        ));
        assert(through == sums[i + 1]);
        if target.le_spec(through) {
            let rest = choose|rest: Scalar| #[trigger]
                call_ensures(*h.calc, (&Calc::Difference { a: target, b: sums[i] },), rest)
                    && segment_at(h, m[i], rest, r);
            let t = choose|t: Scalar| #[trigger]
                parameter_given(*h.calc, m[i], rest, t) && call_ensures(
                    *h.point,
                    (&m[i].geometry, t),
                    r.point,
                ) && call_ensures(*h.tangent, (&m[i].geometry, t), r.tangent);
            assert(parameter_after(*h.calc, m[i], sums[i], target, t));
            assert(lands(*h.calc, m, sums, target, i, t));
        } else {
            samples_land(h, m, sums, target, i + 1, end, r);
        }
    }
}

/// Where the stretch begins on segment `i`.
pub open spec fn low(sums: Seq<Scalar>, from: Scalar, i: int) -> Scalar {
    larger(from, sums[i])
}

/// Where the stretch ends on segment `i`.
pub open spec fn high(sums: Seq<Scalar>, to: Scalar, i: int) -> Scalar {
    smaller(to, sums[i + 1])
}

/// Whether a stretch keeps anything of segment `i`.
pub open spec fn keeps(
    m: Seq<MeasuredSegment>,
    sums: Seq<Scalar>,
    from: Scalar,
    to: Scalar,
    i: int,
) -> bool {
    extends(m, i) && !high(sums, to, i).le_spec(low(sums, from, i))
}

/// Whether a point is the start of what a stretch keeps of segment `i`, cut at parameter `t`.
pub open spec fn begins_at<
    C: Fn(&Calc) -> Scalar,
    P: Fn(&SegmentGeometry, Scalar) -> Point,
    T: Fn(&SegmentGeometry, Scalar) -> Point,
    S: Fn(&SegmentGeometry, Scalar, Scalar) -> SegmentGeometry,
>(h: MeasureTools<C, P, T, S>, g: SegmentGeometry, t: Scalar, at: Point) -> bool {
    exists|other: Scalar, piece: SegmentGeometry| #[trigger]
        call_ensures(*h.piece, (&g, t, other), piece) && at == piece.start()
}

/// Whether a point is the end of what a stretch keeps of segment `i`, cut at parameter `t`.
pub open spec fn ends_at<
    C: Fn(&Calc) -> Scalar,
    P: Fn(&SegmentGeometry, Scalar) -> Point,
    T: Fn(&SegmentGeometry, Scalar) -> Point,
    S: Fn(&SegmentGeometry, Scalar, Scalar) -> SegmentGeometry,
>(h: MeasureTools<C, P, T, S>, g: SegmentGeometry, t: Scalar, at: Point) -> bool {
    exists|other: Scalar, piece: SegmentGeometry| #[trigger]
        call_ensures(*h.piece, (&g, other, t), piece) && at == piece.end()
}

/// Whether segment `i` is the first that a stretch keeps, from parameter `t` on.
spec fn first_cut<
    C: Fn(&Calc) -> Scalar,
    P: Fn(&SegmentGeometry, Scalar) -> Point,
    T: Fn(&SegmentGeometry, Scalar) -> Point,
    S: Fn(&SegmentGeometry, Scalar, Scalar) -> SegmentGeometry,
>(
    h: MeasureTools<C, P, T, S>,
    m: Seq<MeasuredSegment>,
    sums: Seq<Scalar>,
    from: Scalar,
    to: Scalar,
    at: Point,
    i: int,
    t: Scalar,
) -> bool {
    &&& 0 <= i < m.len()
    &&& keeps(m, sums, from, to, i)
    &&& forall|j: int| 0 <= j < i ==> !#[trigger] keeps(m, sums, from, to, j)
    &&& parameter_after(*h.calc, m[i], sums[i], low(sums, from, i), t)
    &&& begins_at(h, m[i].geometry, t, at)
}

/// Whether segment `i` is the last of the first `n` that a stretch keeps, up to parameter `t`.
spec fn last_cut<
    C: Fn(&Calc) -> Scalar,
    P: Fn(&SegmentGeometry, Scalar) -> Point,
    T: Fn(&SegmentGeometry, Scalar) -> Point,
    S: Fn(&SegmentGeometry, Scalar, Scalar) -> SegmentGeometry,
>(
    h: MeasureTools<C, P, T, S>,
    m: Seq<MeasuredSegment>,
    sums: Seq<Scalar>,
    from: Scalar,
    to: Scalar,
    n: int,
    at: Point,
    i: int,
    t: Scalar,
) -> bool {
    &&& 0 <= i < n
    &&& keeps(m, sums, from, to, i)
    &&& forall|j: int| i < j < n ==> !#[trigger] keeps(m, sums, from, to, j)
    &&& parameter_after(*h.calc, m[i], sums[i], high(sums, to, i), t)
    &&& ends_at(h, m[i].geometry, t, at)
}

/// What a path under construction shows of the first `n` segments.
spec fn cut_so_far<
    C: Fn(&Calc) -> Scalar,
    P: Fn(&SegmentGeometry, Scalar) -> Point,
    T: Fn(&SegmentGeometry, Scalar) -> Point,
    S: Fn(&SegmentGeometry, Scalar, Scalar) -> SegmentGeometry,
>(
    h: MeasureTools<C, P, T, S>,
    m: Seq<MeasuredSegment>,
    sums: Seq<Scalar>,
    from: Scalar,
    to: Scalar,
    n: int,
    out: Path,
) -> bool {
    if out.verbs.len() == 0 {
        out.points.len() == 0 && forall|j: int|
            0 <= j < n ==> !#[trigger] keeps(m, sums, from, to, j)
    } else {
        &&& out.points.len() > 0
        &&& exists|i: int, t: Scalar| #[trigger] first_cut(h, m, sums, from, to, out.points[0], i, t)
        &&& exists|i: int, t: Scalar| #[trigger]
            last_cut(h, m, sums, from, to, n, out.points.last(), i, t)
    }
}

proof fn skipped_segments_show_nothing<
    C: Fn(&Calc) -> Scalar,
    P: Fn(&SegmentGeometry, Scalar) -> Point,
    T: Fn(&SegmentGeometry, Scalar) -> Point,
    S: Fn(&SegmentGeometry, Scalar, Scalar) -> SegmentGeometry,
>(
    h: MeasureTools<C, P, T, S>,
    m: Seq<MeasuredSegment>,
    sums: Seq<Scalar>,
    from: Scalar,
    to: Scalar,
    n: int,
    out: Path,
)
    requires
        0 <= n < m.len(),
        cut_so_far(h, m, sums, from, to, n, out),
        !keeps(m, sums, from, to, n),
    ensures
        cut_so_far(h, m, sums, from, to, n + 1, out),
{
    if out.verbs.len() > 0 {
        let (i, t) = choose|i: int, t: Scalar| #[trigger]
            last_cut(h, m, sums, from, to, n, out.points.last(), i, t);
        assert(last_cut(h, m, sums, from, to, n + 1, out.points.last(), i, t));
    }
}

proof fn kept_segments_show<
    C: Fn(&Calc) -> Scalar,
    P: Fn(&SegmentGeometry, Scalar) -> Point,
    T: Fn(&SegmentGeometry, Scalar) -> Point,
    S: Fn(&SegmentGeometry, Scalar, Scalar) -> SegmentGeometry,
>(
    h: MeasureTools<C, P, T, S>,
    m: Seq<MeasuredSegment>,
    sums: Seq<Scalar>,
    from: Scalar,
    to: Scalar,
    n: int,
    out: Path,
    open: bool,
    piece: SegmentGeometry,
)
    requires
        0 <= n < m.len(),
        open ==> out.verbs.len() > 0,
        cut_so_far(h, m, sums, from, to, n, out),
        keeps(m, sums, from, to, n),
        piece_given(h, m[n], sums[n], low(sums, from, n), high(sums, to, n), piece),
    ensures
        cut_so_far(h, m, sums, from, to, n + 1, with_piece(out, open, piece)),
{
    let next = with_piece(out, open, piece);
    let (s, t) = choose|t0: Scalar, t1: Scalar|
        #![trigger parameter_after(*h.calc, m[n], sums[n], low(sums, from, n), t0), parameter_after(*h.calc, m[n], sums[n], high(sums, to, n), t1)]
        parameter_after(*h.calc, m[n], sums[n], low(sums, from, n), t0) && parameter_after(
            *h.calc,
            m[n],
            sums[n],
            high(sums, to, n),
            t1,
        ) && call_ensures(*h.piece, (&m[n].geometry, t0, t1), piece);
    assert(piece.tail().last() == piece.end());
    assert(next.points.last() == piece.end());
    assert(ends_at(h, m[n].geometry, t, next.points.last()));
    assert(last_cut(h, m, sums, from, to, n + 1, next.points.last(), n, t));
    if out.verbs.len() == 0 {
        assert(out.points.push(piece.start())[0] == piece.start());
        assert(next.points[0] == piece.start());
        assert(begins_at(h, m[n].geometry, s, next.points[0]));
        assert(first_cut(h, m, sums, from, to, next.points[0], n, s));
    } else {
        assert(next.points[0] == out.points[0]);
        let (i, u) = choose|i: int, t: Scalar| #[trigger]
            first_cut(h, m, sums, from, to, out.points[0], i, t);
        assert(first_cut(h, m, sums, from, to, next.points[0], i, u));
    }
}

proof fn cuts_show<
    C: Fn(&Calc) -> Scalar,
    P: Fn(&SegmentGeometry, Scalar) -> Point,
    T: Fn(&SegmentGeometry, Scalar) -> Point,
    S: Fn(&SegmentGeometry, Scalar, Scalar) -> SegmentGeometry,
>(
    h: MeasureTools<C, P, T, S>,
    m: MeasuredPath,
    sums: Seq<Scalar>,
    from: Scalar,
    to: Scalar,
    i: int,
    open: bool,
    out: Path,
    r: Path,
)
    requires
        computes(h),
        tabled(*h.calc, m.segments@, sums),
        0 <= i <= m.segments@.len(),
        open ==> out.verbs.len() > 0,
        cut_so_far(h, m.segments@, sums, from, to, i, out),
        cut_from(h, m, from, to, i, sums[i], open, out, r),
    ensures
        cut_so_far(h, m.segments@, sums, from, to, m.segments@.len() as int, r),
    decreases m.segments@.len() - i,
{
    if i < m.segments@.len() {
        let seg = m.segments@[i];
        let begun = open && !starts_at(m.starts@, i);
        let through = choose|through: Scalar| #[trigger]
            call_ensures(*h.calc, (&Calc::Sum { a: sums[i], b: seg.length },), through) && {
                let low = larger(from, sums[i]);
                let high = smaller(to, through);
                if seg.length.le_spec(num(ZERO)) || high.le_spec(low) {
                    cut_from(h, m, from, to, i + 1, through, begun, out, r)
                } else {
                    exists|piece: SegmentGeometry| #[trigger]
                        piece_given(h, seg, sums[i], low, high, piece) && cut_from(
                            h,
                            m,
                            from,
                            to,
                            i + 1,
                            through,
                            true,
                            with_piece(out, begun, piece),
                            r,
                        )
                }
            };
        assert(call_ensures(
            *h.calc,
            (&Calc::Sum { a: sums[i + 1 - 1], b: m.segments@[i + 1 - 1].length },),
            sums[i + 1],
        ));
        assert(through == sums[i + 1]);
        if keeps(m.segments@, sums, from, to, i) {
            let piece = choose|piece: SegmentGeometry| #[trigger]
                piece_given(h, seg, sums[i], low(sums, from, i), high(sums, to, i), piece)
                    && cut_from(
                    h,
                    m,
                    from,
                    to,
                    i + 1,
                    through,
                    true,
                    with_piece(out, begun, piece),
                    r,
                );
            kept_segments_show(h, m.segments@, sums, from, to, i, out, begun, piece);
            cuts_show(h, m, sums, from, to, i + 1, true, with_piece(out, begun, piece), r);
        } else {
            skipped_segments_show_nothing(h, m.segments@, sums, from, to, i, out);
            cuts_show(h, m, sums, from, to, i + 1, begun, out, r);
        }
    }
}

/// A length between two sums is passed by one of the segments between them.
proof fn some_segment_passes<C: Fn(&Calc) -> Scalar>(
    calc: C,
    m: Seq<MeasuredSegment>,
    sums: Seq<Scalar>,
    x: Scalar,
    i: int,
    j: int,
) -> (k: int)
    requires
        sums_grow(calc),
        tabled(calc, m, sums),
        !x.is_nan_spec(),
        0 <= i < j < sums.len(),
        sums[i].le_spec(x),
        x.lt_spec(sums[j]),
    ensures
        i <= k < j,
        extends(m, k),
        sums[k].le_spec(x),
        x.lt_spec(sums[k + 1]),
    decreases j - i,
{
    sums_ascend(calc, m, sums, 0, j - 1);
    if sums[j - 1].le_spec(x) {
        if !extends(m, j - 1) {
            sums_rest(calc, m, sums, j - 1);
        }
        j - 1
    } else {
        some_segment_passes(calc, m, sums, x, i, j - 1)
    }
}

/// A length behind a sum is reached by one of the segments after it.
proof fn some_segment_reaches<C: Fn(&Calc) -> Scalar>(
    calc: C,
    m: Seq<MeasuredSegment>,
    sums: Seq<Scalar>,
    x: Scalar,
    i: int,
    j: int,
) -> (k: int)
    requires
        sums_grow(calc),
        tabled(calc, m, sums),
        0 <= i < j < sums.len(),
        sums[i].lt_spec(x),
        x.le_spec(sums[j]),
    ensures
        i <= k < j,
        extends(m, k),
        sums[k].lt_spec(x),
        x.le_spec(sums[k + 1]),
    decreases j - i,
{
    sums_ascend(calc, m, sums, 0, j - 1);
    if sums[j - 1].lt_spec(x) {
        if !extends(m, j - 1) {
            sums_rest(calc, m, sums, j - 1);
        }
        j - 1
    } else {
        some_segment_reaches(calc, m, sums, x, i, j - 1)
    }
}

/// Whether a length falls on a seam: a segment before `i` ends there, and segment `i` starts there.
pub open spec fn on_seam(m: Seq<MeasuredSegment>, sums: Seq<Scalar>, target: Scalar, i: int) -> bool {
    &&& target.eq_spec(sums[i])
    &&& exists|j: int| 0 <= j < i && #[trigger] extends(m, j) && target.eq_spec(sums[j + 1])
}

proof fn first_cuts_land<
    C: Fn(&Calc) -> Scalar,
    P: Fn(&SegmentGeometry, Scalar) -> Point,
    T: Fn(&SegmentGeometry, Scalar) -> Point,
    S: Fn(&SegmentGeometry, Scalar, Scalar) -> SegmentGeometry,
>(
    h: MeasureTools<C, P, T, S>,
    m: Seq<MeasuredSegment>,
    sums: Seq<Scalar>,
    from: Scalar,
    to: Scalar,
    at: Point,
    i: int,
    t: Scalar,
)
    requires
        computes(h),
        tabled(*h.calc, m, sums),
        num(ZERO).le_spec(from),
        !to.is_nan_spec(),
        first_cut(h, m, sums, from, to, at, i, t),
    ensures
        parameter_after(*h.calc, m[i], sums[i], from, t),
        sums[i].le_spec(from),
        from.lt_spec(sums[i + 1]),
        lands(*h.calc, m, sums, from, i, t) || on_seam(m, sums, from, i),
{
    sums_ascend(*h.calc, m, sums, 0, i);
    sums_ascend(*h.calc, m, sums, i, i + 1);
    if from.lt_spec(sums[i]) {
        let k = some_segment_passes(*h.calc, m, sums, from, 0, i);
        sums_ascend(*h.calc, m, sums, k, k + 1);
        assert(keeps(m, sums, from, to, k));
    }
    if !lands(*h.calc, m, sums, from, i, t) {
        let j = choose|j: int|
            0 <= j < i && #[trigger] extends(m, j) && from.le_spec(sums[j + 1]);
        sums_ascend(*h.calc, m, sums, j + 1, i);
        assert(extends(m, j) && from.eq_spec(sums[j + 1]));
    }
}

proof fn last_cuts_land<
    C: Fn(&Calc) -> Scalar,
    P: Fn(&SegmentGeometry, Scalar) -> Point,
    T: Fn(&SegmentGeometry, Scalar) -> Point,
    S: Fn(&SegmentGeometry, Scalar, Scalar) -> SegmentGeometry,
>(
    h: MeasureTools<C, P, T, S>,
    m: Seq<MeasuredSegment>,
    sums: Seq<Scalar>,
    from: Scalar,
    to: Scalar,
    at: Point,
    i: int,
    t: Scalar,
)
    requires
        computes(h),
        tabled(*h.calc, m, sums),
        !from.is_nan_spec(),
        to.le_spec(sums.last()),
        last_cut(h, m, sums, from, to, m.len() as int, at, i, t),
    ensures
        lands(*h.calc, m, sums, to, i, t),
{
    sums_ascend(*h.calc, m, sums, i, i + 1);
    if sums[i + 1].lt_spec(to) {
        let k = some_segment_reaches(*h.calc, m, sums, to, i + 1, m.len() as int);
        sums_ascend(*h.calc, m, sums, k, k + 1);
        assert(keeps(m, sums, from, to, k));
    }
    assert forall|j: int| 0 <= j < i && #[trigger] extends(m, j) implies !to.le_spec(
        sums[j + 1],
    ) by {
        sums_ascend(*h.calc, m, sums, j + 1, i);
    }
}

/// Whether two segments have the same table.
pub open spec fn same_table(a: MeasuredSegment, b: MeasuredSegment) -> bool {
    a.geometry == b.geometry && a.samples@ == b.samples@ && a.length == b.length
}

proof fn samples_are_single<
    C: Fn(&Calc) -> Scalar,
    P: Fn(&SegmentGeometry, Scalar) -> Point,
    T: Fn(&SegmentGeometry, Scalar) -> Point,
    S: Fn(&SegmentGeometry, Scalar, Scalar) -> SegmentGeometry,
>(
    h: MeasureTools<C, P, T, S>,
    g: SegmentGeometry,
    a: Seq<ArcSample>,
    p: Seq<Point>,
    b: Seq<ArcSample>,
    q: Seq<Point>,
    i: int,
)
    requires
        computes(h),
        samples_given(h, g, a, p),
        samples_given(h, g, b, q),
        0 <= i < a.len(),
        a.len() == b.len(),
    ensures
        a[i] == b[i],
        p[i] == q[i],
    decreases i,
{
    if i > 0 {
        samples_are_single(h, g, a, p, b, q, i - 1);
        assert(sample_follows(h, g, i, (a[i - 1], p[i - 1]), (a[i], p[i])));
        assert(sample_follows(h, g, i, (b[i - 1], q[i - 1]), (b[i], q[i])));
        assert(a[i].t == b[i].t);
        assert(p[i] == q[i]);
        let x = choose|d: Scalar| #[trigger]
            call_ensures(*h.calc, (&Calc::Distance { from: p[i - 1], to: p[i] },), d)
                && call_ensures(
                *h.calc,
                (&Calc::Sum { a: a[i - 1].length, b: d },),
                a[i].length,
            );
        let y = choose|d: Scalar| #[trigger]
            call_ensures(*h.calc, (&Calc::Distance { from: q[i - 1], to: q[i] },), d)
                && call_ensures(
                *h.calc,
                (&Calc::Sum { a: b[i - 1].length, b: d },),
                b[i].length,
            );
        assert(x == y);
    }
}

proof fn tables_are_single<
    C: Fn(&Calc) -> Scalar,
    P: Fn(&SegmentGeometry, Scalar) -> Point,
    T: Fn(&SegmentGeometry, Scalar) -> Point,
    S: Fn(&SegmentGeometry, Scalar, Scalar) -> SegmentGeometry,
>(h: MeasureTools<C, P, T, S>, g: SegmentGeometry, a: MeasuredSegment, b: MeasuredSegment)
    requires
        computes(h),
        segment_measured(h, g, a),
        segment_measured(h, g, b),
    ensures
        same_table(a, b),
{
    let p = choose|points: Seq<Point>| #[trigger] samples_given(h, g, a.samples@, points);
    let q = choose|points: Seq<Point>| #[trigger] samples_given(h, g, b.samples@, points);
    assert forall|i: int| 0 <= i < a.samples@.len() implies a.samples@[i] == b.samples@[i] by {
        samples_are_single(h, g, a.samples@, p, b.samples@, q, i);
    }
    assert(a.samples@ =~= b.samples@);
}

/// Whether measured segments have the same tables.
pub open spec fn same_tables(a: Seq<MeasuredSegment>, b: Seq<MeasuredSegment>) -> bool {
    a.len() == b.len() && forall|i: int| 0 <= i < a.len() ==> same_table(#[trigger] a[i], b[i])
}

proof fn sums_are_single<C: Fn(&Calc) -> Scalar>(
    calc: C,
    a: Seq<MeasuredSegment>,
    b: Seq<MeasuredSegment>,
    x: Seq<Scalar>,
    y: Seq<Scalar>,
    i: int,
)
    requires
        single_valued(calc),
        same_tables(a, b),
        sums_given(calc, a, x),
        sums_given(calc, b, y),
        x.len() == y.len(),
        0 <= i < x.len(),
    ensures
        x[i] == y[i],
    decreases i,
{
    if i > 0 {
        sums_are_single(calc, a, b, x, y, i - 1);
        assert(same_table(a[i - 1], b[i - 1]));
        assert(call_ensures(calc, (&Calc::Sum { a: x[i - 1], b: a[i - 1].length },), x[i]));
        assert(call_ensures(calc, (&Calc::Sum { a: y[i - 1], b: b[i - 1].length },), y[i]));
    }
}

/// A path is measured in one way.
pub proof fn measuring_is_single<
    C: Fn(&Calc) -> Scalar,
    P: Fn(&SegmentGeometry, Scalar) -> Point,
    T: Fn(&SegmentGeometry, Scalar) -> Point,
    S: Fn(&SegmentGeometry, Scalar, Scalar) -> SegmentGeometry,
>(h: MeasureTools<C, P, T, S>, p: Path, a: MeasuredPath, b: MeasuredPath)
    requires
        computes(h),
        path_measured(h, p, a),
        path_measured(h, p, b),
    ensures
        same_tables(a.segments@, b.segments@),
        a.total == b.total,
{
    let all = segments_of(contours_of(p), contours_of(p).len());
    assert forall|i: int| 0 <= i < a.segments@.len() implies same_table(
        #[trigger] a.segments@[i],
        b.segments@[i],
    ) by {
        assert(segment_measured(h, all[i], a.segments@[i]));
        assert(segment_measured(h, all[i], b.segments@[i]));
        tables_are_single(h, all[i], a.segments@[i], b.segments@[i]);
    }
    let x = choose|sums: Seq<Scalar>| #[trigger]
        sums_given(*h.calc, a.segments@, sums) && sums.len() == a.segments@.len() + 1 && a.total
            == sums.last();
    let y = choose|sums: Seq<Scalar>| #[trigger]
        sums_given(*h.calc, b.segments@, sums) && sums.len() == b.segments@.len() + 1 && b.total
            == sums.last();
    sums_are_single(*h.calc, a.segments@, b.segments@, x, y, x.len() - 1);
}

proof fn samples_land_on_the_table<
    C: Fn(&Calc) -> Scalar,
    P: Fn(&SegmentGeometry, Scalar) -> Point,
    T: Fn(&SegmentGeometry, Scalar) -> Point,
    S: Fn(&SegmentGeometry, Scalar, Scalar) -> SegmentGeometry,
>(
    h: MeasureTools<C, P, T, S>,
    p: Path,
    m: MeasuredPath,
    sums: Seq<Scalar>,
    progress: Scalar,
    target: Scalar,
    r: PathSample,
)
    requires
        computes(h),
        path_measured(h, p, m),
        tabled(*h.calc, m.segments@, sums),
        sums.last() == m.total,
        !m.total.le_spec(num(ZERO)),
        progress.finite(),
        target.le_spec(m.total),
        call_ensures(
            *h.calc,
            (&Calc::Product { a: m.total, b: progress.clamp_spec(num(ZERO), num(ONE)) },),
            target,
        ),
        path_sampled(h, p, progress, Ok(r)),
    ensures
        taken_at(h, m.segments@, sums, target, r),
{
    let other = choose|other: MeasuredPath| #[trigger]
        path_measured(h, p, other) && sampled(h, other, progress, r);
    measuring_is_single(h, p, m, other);
    let mine = m.segments@;
    let theirs = other.segments@;
    let aim = choose|aim: Scalar| #[trigger]
        call_ensures(
            *h.calc,
            (&Calc::Product {
                a: other.total,
                b: progress.clamp_spec(num(ZERO), num(ONE)),
            },),
            aim,
        ) && found_from(h, theirs, aim, 0, num(ZERO), at_rest(other.first), r);
    assert(aim == target);
    assert(tabled(*h.calc, theirs, sums)) by {
        assert forall|i: int| 1 <= i < sums.len() implies call_ensures(
            *h.calc,
            (&Calc::Sum { a: sums[i - 1], b: theirs[i - 1].length },),
            #[trigger] sums[i],
        ) by {
            assert(same_table(mine[i - 1], theirs[i - 1]));
        }
        assert forall|i: int| 0 <= i < theirs.len() implies is_length(
            (#[trigger] theirs[i]).length,
        ) by {
            assert(same_table(mine[i], theirs[i]));
            assert(is_length(mine[i].length));
        }
    }
    samples_land(h, theirs, sums, target, 0, at_rest(other.first), r);
    let (i, t) = choose|i: int, t: Scalar| #[trigger]
        lands(*h.calc, theirs, sums, target, i, t) && call_ensures(
            *h.point,
            (&theirs[i].geometry, t),
            r.point,
        );
    assert(same_table(mine[i], theirs[i]));
    let d = choose|d: Scalar| #[trigger]
        call_ensures(*h.calc, (&Calc::Difference { a: target, b: sums[i] },), d)
            && parameter_given(*h.calc, theirs[i], d, t);
    assert(parameter_given(*h.calc, mine[i], d, t));
    assert(parameter_after(*h.calc, mine[i], sums[i], target, t));
    assert forall|j: int| 0 <= j < i && #[trigger] extends(mine, j) implies !target.le_spec(
        sums[j + 1],
    ) by {
        assert(same_table(mine[j], theirs[j]));
        assert(extends(theirs, j));
    }
    assert(extends(theirs, i));
    assert(lands(*h.calc, mine, sums, target, i, t));
}

/// Whether every measurement of a path is a finite length.
pub open spec fn measurable<
    C: Fn(&Calc) -> Scalar,
    P: Fn(&SegmentGeometry, Scalar) -> Point,
    T: Fn(&SegmentGeometry, Scalar) -> Point,
    S: Fn(&SegmentGeometry, Scalar, Scalar) -> SegmentGeometry,
>(h: MeasureTools<C, P, T, S>, p: Path) -> bool {
    forall|m: MeasuredPath| #[trigger]
        path_measured(h, p, m) ==> m.total.finite() && forall|i: int|
            0 <= i < m.segments@.len() ==> is_length((#[trigger] m.segments@[i]).length)
}

/// Whether a stretch that ends at a point is cut from the segment, and at the parameter, at which a
/// sample was taken.
pub open spec fn ends_on_sample<
    C: Fn(&Calc) -> Scalar,
    P: Fn(&SegmentGeometry, Scalar) -> Point,
    T: Fn(&SegmentGeometry, Scalar) -> Point,
    S: Fn(&SegmentGeometry, Scalar, Scalar) -> SegmentGeometry,
>(h: MeasureTools<C, P, T, S>, at: Point, sample: Point) -> bool {
    exists|g: SegmentGeometry, t: Scalar| #[trigger]
        ends_at(h, g, t, at) && call_ensures(*h.point, (&g, t), sample)
}

/// Whether a stretch that begins at a point is cut from the segment, and at the parameter, at which a
/// sample was taken.
pub open spec fn begins_on_sample<
    C: Fn(&Calc) -> Scalar,
    P: Fn(&SegmentGeometry, Scalar) -> Point,
    T: Fn(&SegmentGeometry, Scalar) -> Point,
    S: Fn(&SegmentGeometry, Scalar, Scalar) -> SegmentGeometry,
>(h: MeasureTools<C, P, T, S>, at: Point, sample: Point) -> bool {
    exists|g: SegmentGeometry, t: Scalar| #[trigger]
        begins_at(h, g, t, at) && call_ensures(*h.point, (&g, t), sample)
}

/// Whether a stretch begins with a segment, and a sample is taken on a segment before it, where both
/// lie at the same length along a measured path: the one begins where the other ends.
pub open spec fn begins_on_seam<
    C: Fn(&Calc) -> Scalar,
    P: Fn(&SegmentGeometry, Scalar) -> Point,
    T: Fn(&SegmentGeometry, Scalar) -> Point,
    S: Fn(&SegmentGeometry, Scalar, Scalar) -> SegmentGeometry,
>(
    h: MeasureTools<C, P, T, S>,
    m: Seq<MeasuredSegment>,
    from: Scalar,
    at: Point,
    sample: Point,
) -> bool {
    exists|sums: Seq<Scalar>, i: int, t: Scalar, j: int, u: Scalar|
        #![trigger lands(*h.calc, m, sums, from, j, u), begins_at(h, m[i].geometry, t, at)]
        tabled(*h.calc, m, sums) && 0 <= j < i < m.len() && lands(*h.calc, m, sums, from, j, u)
            && from.eq_spec(sums[j + 1]) && call_ensures(*h.point, (&m[j].geometry, u), sample)
            && from.eq_spec(sums[i]) && parameter_after(*h.calc, m[i], sums[i], from, t)
            && begins_at(h, m[i].geometry, t, at)
}

/// Whether a stretch of a path begins on a seam.
pub open spec fn stretch_on_seam<
    C: Fn(&Calc) -> Scalar,
    P: Fn(&SegmentGeometry, Scalar) -> Point,
    T: Fn(&SegmentGeometry, Scalar) -> Point,
    S: Fn(&SegmentGeometry, Scalar, Scalar) -> SegmentGeometry,
>(h: MeasureTools<C, P, T, S>, p: Path, start: Scalar, at: Point, sample: Point) -> bool {
    exists|m: MeasuredPath, from: Scalar|
        #![trigger path_measured(h, p, m), begins_on_seam(h, m.segments@, from, at, sample)]
        path_measured(h, p, m) && call_ensures(
            *h.calc,
            (&Calc::Product { a: m.total, b: start.clamp_spec(num(ZERO), num(ONE)) },),
            from,
        ) && begins_on_seam(h, m.segments@, from, at, sample)
}

/// One table of lengths drives trimming and sampling. A stretch ends on the segment, and at the
/// parameter, at which the path is sampled at the end of the stretch; it begins on the segment, and at
/// the parameter, at which the path is sampled at its start, or else with a segment that begins where
/// the sampled one ends. Where pieces meet the points of their segments exactly, so do the ends of
/// the stretch and the samples.
pub proof fn stretches_meet_samples<
    C: Fn(&Calc) -> Scalar,
    P: Fn(&SegmentGeometry, Scalar) -> Point,
    T: Fn(&SegmentGeometry, Scalar) -> Point,
    S: Fn(&SegmentGeometry, Scalar, Scalar) -> SegmentGeometry,
>(
    h: MeasureTools<C, P, T, S>,
    p: Path,
    start: Scalar,
    end: Scalar,
    r: Path,
    first: PathSample,
    last: PathSample,
)
    requires
        computes(h),
        measurable(h, p),
        trim_given(h, p, start, end, Ok(r)),
        trim_step(start, end) is Cut,
        r.verbs.len() > 0,
        path_sampled(h, p, start, Ok(first)),
        path_sampled(h, p, end, Ok(last)),
    ensures
        r.points.len() > 0,
        ends_on_sample(h, r.points.last(), last.point),
        begins_on_sample(h, r.points[0], first.point) || stretch_on_seam(
            h,
            p,
            start,
            r.points[0],
            first.point,
        ),
        pieces_meet_points(h) ==> r.points.last() == last.point && (r.points[0] == first.point
            || stretch_on_seam(h, p, start, r.points[0], first.point)),
{
    let a = start.clamp_spec(num(ZERO), num(ONE));
    let b = end.clamp_spec(num(ZERO), num(ONE));
    assert(start.finite() && end.finite());
    let m = choose|m: MeasuredPath| #[trigger]
        path_measured(h, p, m) && stretch_given(h, m, a, b, Ok(r));
    let (from, to, kept) = choose|from: Scalar, to: Scalar, kept: Path|
        #![trigger stretch_kept(h, m, a, b, from, to, kept)]
        stretch_kept(h, m, a, b, from, to, kept) && Ok::<Path, GeometryError>(r) == checked(kept);
    assert(kept == r);
    let sums = choose|sums: Seq<Scalar>| #[trigger]
        sums_given(*h.calc, m.segments@, sums) && sums.len() == m.segments@.len() + 1 && m.total
            == sums.last();
    assert(tabled(*h.calc, m.segments@, sums));
    sums_ascend(*h.calc, m.segments@, sums, 0, sums.len() - 1);
    assert(from.within(num(ZERO), m.total));
    assert(to.within(num(ZERO), m.total));
    assert(cut_so_far(h, m.segments@, sums, from, to, 0, no_path()));
    cuts_show(h, m, sums, from, to, 0, false, no_path(), r);
    let n = m.segments@.len() as int;
    let (i, s) = choose|i: int, t: Scalar| #[trigger]
        first_cut(h, m.segments@, sums, from, to, r.points[0], i, t);
    let (j, t) = choose|i: int, t: Scalar| #[trigger]
        last_cut(h, m.segments@, sums, from, to, n, r.points.last(), i, t);
    first_cuts_land(h, m.segments@, sums, from, to, r.points[0], i, s);
    last_cuts_land(h, m.segments@, sums, from, to, r.points.last(), j, t);
    samples_land_on_the_table(h, p, m, sums, start, from, first);
    samples_land_on_the_table(h, p, m, sums, end, to, last);
    let (k, u) = choose|k: int, u: Scalar| #[trigger]
        lands(*h.calc, m.segments@, sums, to, k, u) && call_ensures(
            *h.point,
            (&m.segments@[k].geometry, u),
            last.point,
        );
    lengths_land_once(*h.calc, m.segments@, sums, to, j, t, k, u);
    let g = m.segments@[j].geometry;
    assert(ends_at(h, g, t, r.points.last()));
    let (l, v) = choose|l: int, v: Scalar| #[trigger]
        lands(*h.calc, m.segments@, sums, from, l, v) && call_ensures(
            *h.point,
            (&m.segments@[l].geometry, v),
            first.point,
        );
    assert(begins_at(h, m.segments@[i].geometry, s, r.points[0]));
    if lands(*h.calc, m.segments@, sums, from, i, s) {
        lengths_land_once(*h.calc, m.segments@, sums, from, i, s, l, v);
    } else {
        let x = choose|x: int|
            0 <= x < i && #[trigger] extends(m.segments@, x) && from.eq_spec(sums[x + 1]);
        assert(extends(m.segments@, l) && extends(m.segments@, x));
        assert(l <= x);
        sums_ascend(*h.calc, m.segments@, sums, l + 1, i);
        assert(begins_on_seam(h, m.segments@, from, r.points[0], first.point));
        assert(path_measured(h, p, m));
    }
    if pieces_meet_points(h) {
        let (o, piece) = choose|other: Scalar, piece: SegmentGeometry| #[trigger]
            call_ensures(*h.piece, (&g, other, t), piece) && r.points.last() == piece.end();
        assert(call_ensures(*h.point, (&g, t), piece.end()));
        let f = m.segments@[i].geometry;
        let (q, head) = choose|other: Scalar, piece: SegmentGeometry| #[trigger]
            call_ensures(*h.piece, (&f, s, other), piece) && r.points[0] == piece.start();
        assert(call_ensures(*h.point, (&f, s), head.start()));
    }
}

} // verus!
