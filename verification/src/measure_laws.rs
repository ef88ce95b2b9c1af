//! Lengths along a path: how segments are measured, where a length falls, and what a stretch keeps.

use vstd::prelude::*;

use crate::contours::{contours_of, ContourShape, SegmentGeometry};
use crate::measure::{
    found_from, hit, parameter_given, path_measured, sample_from, sampled, segment_at,
    segment_measured, segments_of, step_end, stretch_given, trim_given, with_piece, ArcSample,
    Calc, MeasureTools, MeasuredPath, MeasuredSegment, PathSample,
};
use crate::path::{GeometryError, Path, PathVerb};
use crate::recording::Point;
use crate::scalar::{num, Scalar};

verus! {

/// Whether a sample of a segment is measured: at its part of the steps, by the distance from the point of
/// the sample before it to its own.
pub open spec fn is_measured<
    C: Fn(&Calc) -> Scalar,
    P: Fn(&SegmentGeometry, Scalar) -> Point,
    T: Fn(&SegmentGeometry, Scalar) -> Point,
    S: Fn(&SegmentGeometry, Scalar, Scalar) -> SegmentGeometry,
>(
    h: MeasureTools<C, P, T, S>,
    g: SegmentGeometry,
    samples: Seq<ArcSample>,
    points: Seq<Point>,
    i: int,
) -> bool {
    &&& call_ensures(*h.point, (&g, samples[i].t), points[i])
    &&& i == 0 ==> samples[0].t == num(0) && samples[0].length == num(0)
    &&& i > 0 ==> call_ensures(
        *h.calc,
        (&Calc::Part { step: i as usize, steps: (samples.len() - 1) as usize },),
        samples[i].t,
    )
    &&& i > 0 ==> exists|d: Scalar| #[trigger]
        call_ensures(*h.calc, (&Calc::Distance { from: points[i - 1], to: points[i] },), d)
            && call_ensures(
            *h.calc,
            (&Calc::Sum { a: samples[i - 1].length, b: d },),
            samples[i].length,
        )
}

/// A line is measured in one step and a curve in sixteen, each sample by its distance from the one before.
pub proof fn segments_are_measured_in_steps<
    C: Fn(&Calc) -> Scalar,
    P: Fn(&SegmentGeometry, Scalar) -> Point,
    T: Fn(&SegmentGeometry, Scalar) -> Point,
    S: Fn(&SegmentGeometry, Scalar, Scalar) -> SegmentGeometry,
>(h: MeasureTools<C, P, T, S>, g: SegmentGeometry, m: MeasuredSegment)
    requires
        segment_measured(h, g, m),
    ensures
        m.geometry == g,
        m.samples@.len() == if g is Line { 2int } else { 17 },
        m.length == m.samples@.last().length,
        exists|points: Seq<Point>| #[trigger] are_measured(h, g, m.samples@, points),
{
    let points = choose|points: Seq<Point>| #[trigger]
        crate::measure::samples_given(h, g, m.samples@, points);
    assert forall|i: int| 0 <= i < m.samples@.len() implies #[trigger] is_measured(
        h,
        g,
        m.samples@,
        points,
        i,
    ) by {
        if i > 0 {
            assert(crate::measure::sample_follows(
                h,
                g,
                i,
                (m.samples@[i - 1], points[i - 1]),
                (m.samples@[i], points[i]),
            ));
        }
    }
    assert(are_measured(h, g, m.samples@, points));
}

pub open spec fn are_measured<
    C: Fn(&Calc) -> Scalar,
    P: Fn(&SegmentGeometry, Scalar) -> Point,
    T: Fn(&SegmentGeometry, Scalar) -> Point,
    S: Fn(&SegmentGeometry, Scalar, Scalar) -> SegmentGeometry,
>(
    h: MeasureTools<C, P, T, S>,
    g: SegmentGeometry,
    samples: Seq<ArcSample>,
    points: Seq<Point>,
) -> bool {
    points.len() == samples.len() && forall|i: int|
        0 <= i < samples.len() ==> #[trigger] is_measured(h, g, samples, points, i)
}

/// A length lies in the step that ends at the first sample not before it, other than the first sample.
pub proof fn steps_end_at_their_length(samples: Seq<ArcSample>, target: Scalar, k: int)
    requires
        samples.len() >= 2,
        0 < k < samples.len(),
        !samples[k].length.lt_spec(target),
        forall|j: int| 0 <= j < k ==> (#[trigger] samples[j]).length.lt_spec(target),
    ensures
        step_end(samples, target) == k,
{
    first_sample(samples, target, k, 0);
}

proof fn first_sample(samples: Seq<ArcSample>, target: Scalar, k: int, i: int)
    requires
        0 <= i <= k < samples.len(),
        !samples[k].length.lt_spec(target),
        forall|j: int| i <= j < k ==> (#[trigger] samples[j]).length.lt_spec(target),
    ensures
        sample_from(samples, target, i) == k,
    decreases k - i,
{
    if i < k {
        first_sample(samples, target, k, i + 1);
    }
}

/// A length within a step is as far between the parameters of its ends as between their lengths.
pub proof fn parameters_follow_lengths<C: Fn(&Calc) -> Scalar>(
    calc: C,
    m: MeasuredSegment,
    length: Scalar,
    t: Scalar,
    k: int,
)
    requires
        m.samples@.len() >= 2,
        0 < k < m.samples@.len(),
        num(0).le_spec(length) && length.le_spec(m.length) && num(0).lt_spec(m.length),
        !m.samples@[k].length.lt_spec(length),
        forall|j: int| 0 <= j < k ==> (#[trigger] m.samples@[j]).length.lt_spec(length),
        parameter_given(calc, m, length, t),
    ensures
        exists|span: Scalar| #[trigger]
            call_ensures(
                calc,
                (&Calc::Difference { a: m.samples@[k].length, b: m.samples@[k - 1].length },),
                span,
            ) && lies_between(calc, m.samples@[k - 1], m.samples@[k], length, span, t),
{
    steps_end_at_their_length(m.samples@, length, k);
    assert(length.clamp_spec(num(0), m.length) == length);
    let (a, b) = (m.samples@[k - 1], m.samples@[k]);
    assert(crate::measure::interpolated(calc, a, b, length, t));
    let span = choose|span: Scalar| #[trigger]
        call_ensures(calc, (&Calc::Difference { a: b.length, b: a.length },), span) && if span.le_spec(
            num(0),
        ) {
            t == a.t
        } else {
            exists|part: Scalar| #[trigger]
                call_ensures(calc, (&Calc::Difference { a: length, b: a.length },), part)
                    && call_ensures(
                    calc,
                    (&Calc::Between { from: a.t, to: b.t, part, span },),
                    t,
                )
        };
    assert(lies_between(calc, a, b, length, span, t));
}

/// Whether a parameter lies as far between those of two samples as a length lies between theirs; at the
/// first one where they are not apart.
pub open spec fn lies_between<C: Fn(&Calc) -> Scalar>(
    calc: C,
    a: ArcSample,
    b: ArcSample,
    length: Scalar,
    span: Scalar,
    t: Scalar,
) -> bool {
    if span.le_spec(num(0)) {
        t == a.t
    } else {
        exists|part: Scalar| #[trigger]
            call_ensures(calc, (&Calc::Difference { a: length, b: a.length },), part) && call_ensures(
                calc,
                (&Calc::Between { from: a.t, to: b.t, part, span },),
                t,
            )
    }
}

/// A segment without length has one parameter.
pub proof fn empty_segments_have_one_parameter<C: Fn(&Calc) -> Scalar>(
    calc: C,
    m: MeasuredSegment,
    length: Scalar,
    t: Scalar,
)
    requires
        parameter_given(calc, m, length, t),
        m.length.le_spec(num(0)),
    ensures
        t == num(0),
{
}

/// A measured path has the segments of its contours, one contour behind the other, begins at its first
/// point, and is as long as they are together.
pub proof fn paths_are_measured_segment_by_segment<
    C: Fn(&Calc) -> Scalar,
    P: Fn(&SegmentGeometry, Scalar) -> Point,
    T: Fn(&SegmentGeometry, Scalar) -> Point,
    S: Fn(&SegmentGeometry, Scalar, Scalar) -> SegmentGeometry,
>(h: MeasureTools<C, P, T, S>, p: Path, m: MeasuredPath, i: int)
    requires
        path_measured(h, p, m),
    ensures
        p.points.len() > 0 ==> m.first == p.points[0],
        m.segments@.len() == segments_of(contours_of(p), contours_of(p).len()).len(),
        0 <= i < m.segments@.len() ==> segment_measured(
            h,
            segments_of(contours_of(p), contours_of(p).len())[i],
            m.segments@[i],
        ),
        m.starts@.len() == contours_of(p).len(),
        0 <= i < m.starts@.len() ==> m.starts@[i] == segments_of(contours_of(p), i as nat).len() as usize,
        exists|sums: Seq<Scalar>| #[trigger] add_up(*h.calc, m.segments@, sums) && m.total == sums.last(),
{
    let sums = choose|sums: Seq<Scalar>| #[trigger]
        crate::measure::sums_given(*h.calc, m.segments@, sums) && sums.len() == m.segments@.len() + 1
            && m.total == sums.last();
    assert(add_up(*h.calc, m.segments@, sums));
}

/// Whether numbers are the running sums of the lengths of segments, from zero on.
pub open spec fn add_up<C: Fn(&Calc) -> Scalar>(
    calc: C,
    m: Seq<MeasuredSegment>,
    sums: Seq<Scalar>,
) -> bool {
    &&& sums.len() == m.len() + 1
    &&& sums[0] == num(0)
    &&& forall|i: int|
        1 <= i < sums.len() ==> call_ensures(
            calc,
            (&Calc::Sum { a: sums[i - 1], b: m[i - 1].length },),
            #[trigger] sums[i],
        )
}

/// Contours are measured one behind the other.
pub proof fn contours_follow_each_other(all: Seq<ContourShape>, n: nat)
    requires
        n < all.len(),
    ensures
        segments_of(all, 0).len() == 0,
        segments_of(all, n + 1) == segments_of(all, n) + all[n as int].segments,
{
}

/// A path without length is sampled at its first point, facing right; any other at the length that its
/// progress, from 0 to 1, makes of its whole length.
pub proof fn samples_lie_at_their_progress<
    C: Fn(&Calc) -> Scalar,
    P: Fn(&SegmentGeometry, Scalar) -> Point,
    T: Fn(&SegmentGeometry, Scalar) -> Point,
    S: Fn(&SegmentGeometry, Scalar, Scalar) -> SegmentGeometry,
>(h: MeasureTools<C, P, T, S>, m: MeasuredPath, progress: Scalar, r: PathSample)
    requires
        sampled(h, m, progress, r),
    ensures
        m.total.le_spec(num(0)) || !progress.finite() ==> r.point == m.first && r.tangent.x == num(
            0x3ff0_0000_0000_0000,
        ) && r.tangent.y == num(0),
        !m.total.le_spec(num(0)) && progress.finite() ==> exists|target: Scalar| #[trigger]
            call_ensures(
                *h.calc,
                (&Calc::Product { a: m.total, b: from_0_to_1(progress) },),
                target,
            ) && falls(h, m, target, r),
{
    if !m.total.le_spec(num(0)) && progress.finite() {
        let b = from_0_to_1(progress);
        assert(b == progress.clamp_spec(num(0), num(0x3ff0_0000_0000_0000)));
        let target = choose|target: Scalar| #[trigger]
            call_ensures(*h.calc, (&Calc::Product { a: m.total, b },), target) && found_from(
                h,
                m.segments@,
                target,
                0,
                num(0),
                crate::measure::at_rest(m.first),
                r,
            );
        assert(falls(h, m, target, r));
    }
}

/// A number, or the nearer of 0 and 1 where it lies outside.
pub open spec fn from_0_to_1(x: Scalar) -> Scalar {
    if x.order() < 0 {
        num(0)
    } else if x.order() > 0x3ff0_0000_0000_0000 {
        num(0x3ff0_0000_0000_0000)
    } else {
        x
    }
}

/// Whether a sample is where a length falls on a measured path.
pub open spec fn falls<
    C: Fn(&Calc) -> Scalar,
    P: Fn(&SegmentGeometry, Scalar) -> Point,
    T: Fn(&SegmentGeometry, Scalar) -> Point,
    S: Fn(&SegmentGeometry, Scalar, Scalar) -> SegmentGeometry,
>(h: MeasureTools<C, P, T, S>, m: MeasuredPath, target: Scalar, r: PathSample) -> bool {
    found_from(
        h,
        m.segments@,
        target,
        0,
        num(0),
        PathSample { point: m.first, tangent: Point { x: num(0x3ff0_0000_0000_0000), y: num(0) } },
        r,
    )
}

/// A length falls into the first segment that reaches it, at what was left of it there: point and tangent
/// belong to one parameter.
pub proof fn lengths_fall_into_the_segment_that_reaches_them<
    C: Fn(&Calc) -> Scalar,
    P: Fn(&SegmentGeometry, Scalar) -> Point,
    T: Fn(&SegmentGeometry, Scalar) -> Point,
    S: Fn(&SegmentGeometry, Scalar, Scalar) -> SegmentGeometry,
>(
    h: MeasureTools<C, P, T, S>,
    m: MeasuredSegment,
    target: Scalar,
    consumed: Scalar,
    r: PathSample,
)
    requires
        hit(h, m, target, consumed, r),
    ensures
        exists|rest: Scalar, t: Scalar|
            #![trigger call_ensures(*h.calc, (&Calc::Difference { a: target, b: consumed },), rest), parameter_given(*h.calc, m, rest, t)]
            call_ensures(*h.calc, (&Calc::Difference { a: target, b: consumed },), rest)
                && parameter_given(*h.calc, m, rest, t) && call_ensures(
                *h.point,
                (&m.geometry, t),
                r.point,
            ) && call_ensures(*h.tangent, (&m.geometry, t), r.tangent),
{
    let rest = choose|rest: Scalar| #[trigger]
        call_ensures(*h.calc, (&Calc::Difference { a: target, b: consumed },), rest) && segment_at(
            h,
            m,
            rest,
            r,
        );
    let t = choose|t: Scalar| #[trigger]
        parameter_given(*h.calc, m, rest, t) && call_ensures(*h.point, (&m.geometry, t), r.point)
            && call_ensures(*h.tangent, (&m.geometry, t), r.tangent);
    assert(parameter_given(*h.calc, m, rest, t));
}

/// Segments without length are passed over; behind the last one the sample is where the path ended.
pub proof fn searches_end_with_the_path<
    C: Fn(&Calc) -> Scalar,
    P: Fn(&SegmentGeometry, Scalar) -> Point,
    T: Fn(&SegmentGeometry, Scalar) -> Point,
    S: Fn(&SegmentGeometry, Scalar, Scalar) -> SegmentGeometry,
>(
    h: MeasureTools<C, P, T, S>,
    m: Seq<MeasuredSegment>,
    target: Scalar,
    i: int,
    consumed: Scalar,
    last: PathSample,
    r: PathSample,
)
    requires
        0 <= i <= m.len(),
        found_from(h, m, target, i, consumed, last, r),
    ensures
        i == m.len() ==> r == last,
        i < m.len() && m[i].length.le_spec(num(0)) ==> found_from(
            h,
            m,
            target,
            i + 1,
            consumed,
            last,
            r,
        ),
        i < m.len() && !m[i].length.le_spec(num(0)) ==> exists|through: Scalar| #[trigger]
            call_ensures(*h.calc, (&Calc::Sum { a: consumed, b: m[i].length },), through) && (
            target.le_spec(through) ==> hit(h, m[i], target, consumed, r)),
{
    if i < m.len() && !m[i].length.le_spec(num(0)) {
        let (end, through) = choose|end: PathSample, through: Scalar|
            #![trigger segment_at(h, m[i], m[i].length, end), call_ensures(*h.calc, (&Calc::Sum { a: consumed, b: m[i].length },), through)]
            segment_at(h, m[i], m[i].length, end) && call_ensures(
                *h.calc,
                (&Calc::Sum { a: consumed, b: m[i].length },),
                through,
            ) && if target.le_spec(through) {
                hit(h, m[i], target, consumed, r)
            } else {
                found_from(h, m, target, i + 1, through, end, r)
            };
        assert(call_ensures(*h.calc, (&Calc::Sum { a: consumed, b: m[i].length },), through));
    }
}

/// A kept piece follows the path that is being drawn, or begins a contour of its own at its start.
pub proof fn pieces_follow_or_begin(p: Path, from: Point, a: Point, b: Point, to: Point)
    ensures
        ({
            let line = SegmentGeometry::Line { from, to };
            let cubic = SegmentGeometry::Cubic { from, control_1: a, control_2: b, to };
            &&& with_piece(p, true, line).verbs == p.verbs.push(PathVerb::Line)
            &&& with_piece(p, true, line).points == p.points.push(to)
            &&& with_piece(p, false, line).verbs == p.verbs.push(PathVerb::Move).push(PathVerb::Line)
            &&& with_piece(p, false, line).points == p.points.push(from).push(to)
            &&& with_piece(p, true, cubic).verbs == p.verbs.push(PathVerb::Cubic)
            &&& with_piece(p, true, cubic).points == p.points.push(a).push(b).push(to)
            &&& with_piece(p, false, cubic).points == p.points.push(from).push(a).push(b).push(to)
        }),
{
    let line = SegmentGeometry::Line { from, to };
    let cubic = SegmentGeometry::Cubic { from, control_1: a, control_2: b, to };
    assert(with_piece(p, true, line).points =~= p.points.push(to));
    assert(with_piece(p, false, line).points =~= p.points.push(from).push(to));
    assert(with_piece(p, true, cubic).points =~= p.points.push(a).push(b).push(to));
    assert(with_piece(p, false, cubic).points =~= p.points.push(from).push(a).push(b).push(to));
}

/// Nothing is kept of a path without length.
pub proof fn nothing_is_kept_without_length<
    C: Fn(&Calc) -> Scalar,
    P: Fn(&SegmentGeometry, Scalar) -> Point,
    T: Fn(&SegmentGeometry, Scalar) -> Point,
    S: Fn(&SegmentGeometry, Scalar, Scalar) -> SegmentGeometry,
>(
    h: MeasureTools<C, P, T, S>,
    m: MeasuredPath,
    start: Scalar,
    end: Scalar,
    r: Result<Path, GeometryError>,
)
    requires
        stretch_given(h, m, start, end, r),
        m.total.le_spec(num(0)),
    ensures
        r is Ok,
        r->Ok_0.verbs.len() == 0,
        r->Ok_0.points.len() == 0,
{
}

/// A trim from 0 to 1 keeps the path as it is, and one that ends before it starts keeps nothing.
pub proof fn whole_trims_keep_the_path<
    C: Fn(&Calc) -> Scalar,
    P: Fn(&SegmentGeometry, Scalar) -> Point,
    T: Fn(&SegmentGeometry, Scalar) -> Point,
    S: Fn(&SegmentGeometry, Scalar, Scalar) -> SegmentGeometry,
>(
    h: MeasureTools<C, P, T, S>,
    p: Path,
    start: Scalar,
    end: Scalar,
    r: Result<Path, GeometryError>,
)
    requires
        p.valid(),
        start.finite() && end.finite(),
        trim_given(h, p, start, end, r),
    ensures
        start.order() <= 0 && end.order() >= 0x3ff0_0000_0000_0000 ==> r == Ok::<Path, GeometryError>(p),
        end.order() <= start.order() && end.order() < 0x3ff0_0000_0000_0000 && start.order() > 0 ==> r is Ok
            && r->Ok_0.verbs.len() == 0 && r->Ok_0.points.len() == 0,
{
}

} // verus!
