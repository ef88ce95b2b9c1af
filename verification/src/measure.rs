//! Paths by arc length: lengths, points, tangents and trims from one table.

use vstd::prelude::*;

use crate::contours::{contours, contours_of, shapes, ContourShape, SegmentGeometry};
use crate::path::{
    checked, path_seen, trim_step, GeometryError, Path, PathData, PathVerb, TrimStep,
    PATH_CURVE_STEPS,
};
use crate::recording::Point;
use crate::scalar::{num, Scalar, ONE, ZERO};

verus! {

/// Arithmetic that the host does.
pub enum Calc {
    Sum { a: Scalar, b: Scalar },
    Difference { a: Scalar, b: Scalar },
    Product { a: Scalar, b: Scalar },
    /// One number over another.
    Part { step: usize, steps: usize },
    /// The distance of two points.
    Distance { from: Point, to: Point },
    /// The number that lies a part of a span between two others.
    Between { from: Scalar, to: Scalar, part: Scalar, span: Scalar },
    /// The direction of a vector in degrees.
    Degrees { direction: Point },
}

/// What the host computes of segments: arithmetic, the point and the tangent at a parameter, and the
/// piece between two parameters.
pub struct MeasureTools<'a, C, P, T, S> {
    pub calc: &'a C,
    pub point: &'a P,
    pub tangent: &'a T,
    pub piece: &'a S,
}

pub open spec fn tools_ready<
    C: Fn(&Calc) -> Scalar,
    P: Fn(&SegmentGeometry, Scalar) -> Point,
    T: Fn(&SegmentGeometry, Scalar) -> Point,
    S: Fn(&SegmentGeometry, Scalar, Scalar) -> SegmentGeometry,
>(h: MeasureTools<C, P, T, S>) -> bool {
    &&& forall|c: Calc| call_requires(*h.calc, (&c,))
    &&& forall|s: SegmentGeometry, t: Scalar| call_requires(*h.point, (&s, t))
    &&& forall|s: SegmentGeometry, t: Scalar| call_requires(*h.tangent, (&s, t))
    &&& forall|s: SegmentGeometry, a: Scalar, b: Scalar| call_requires(*h.piece, (&s, a, b))
}

/// A parameter of a segment and the length up to it.
#[derive(Clone, Copy, Debug, PartialEq, Eq, Structural)]
pub struct ArcSample {
    pub t: Scalar,
    pub length: Scalar,
}

/// A segment with its table of lengths.
#[derive(Debug)]
pub struct MeasuredSegment {
    pub geometry: SegmentGeometry,
    pub samples: Vec<ArcSample>,
    pub length: Scalar,
}

/// How many steps a segment is measured in.
pub open spec fn steps_of(g: SegmentGeometry) -> nat {
    if g is Line {
        1
    } else {
        PATH_CURVE_STEPS as nat
    }
}

/// Whether a sample follows another: its parameter is a whole number of steps, its length one distance
/// longer.
pub open spec fn sample_follows<
    C: Fn(&Calc) -> Scalar,
    P: Fn(&SegmentGeometry, Scalar) -> Point,
    T: Fn(&SegmentGeometry, Scalar) -> Point,
    S: Fn(&SegmentGeometry, Scalar, Scalar) -> SegmentGeometry,
>(
    h: MeasureTools<C, P, T, S>,
    g: SegmentGeometry,
    i: int,
    before: (ArcSample, Point),
    after: (ArcSample, Point),
) -> bool {
    &&& call_ensures(
        *h.calc,
        (&Calc::Part { step: i as usize, steps: steps_of(g) as usize },),
        after.0.t,
    )
    &&& call_ensures(*h.point, (&g, after.0.t), after.1)
    &&& exists|d: Scalar| #[trigger]
        call_ensures(*h.calc, (&Calc::Distance { from: before.1, to: after.1 },), d)
            && call_ensures(
            *h.calc,
            (&Calc::Sum { a: before.0.length, b: d },),
            after.0.length,
        )
}

/// Whether the first samples of a segment come from these points.
pub open spec fn samples_given<
    C: Fn(&Calc) -> Scalar,
    P: Fn(&SegmentGeometry, Scalar) -> Point,
    T: Fn(&SegmentGeometry, Scalar) -> Point,
    S: Fn(&SegmentGeometry, Scalar, Scalar) -> SegmentGeometry,
>(
    h: MeasureTools<C, P, T, S>,
    g: SegmentGeometry,
    samples: Seq<ArcSample>,
    points: Seq<Point>,
) -> bool {
    &&& samples.len() >= 1 && points.len() == samples.len()
    &&& samples[0] == (ArcSample { t: num(ZERO), length: num(ZERO) })
    &&& call_ensures(*h.point, (&g, num(ZERO)), points[0])
    &&& forall|i: int|
        1 <= i < samples.len() ==> sample_follows(
            h,
            g,
            i,
            (samples[i - 1], points[i - 1]),
            (#[trigger] samples[i], points[i]),
        )
}

/// Whether a measured segment is a segment with its table.
pub open spec fn segment_measured<
    C: Fn(&Calc) -> Scalar,
    P: Fn(&SegmentGeometry, Scalar) -> Point,
    T: Fn(&SegmentGeometry, Scalar) -> Point,
    S: Fn(&SegmentGeometry, Scalar, Scalar) -> SegmentGeometry,
>(h: MeasureTools<C, P, T, S>, g: SegmentGeometry, m: MeasuredSegment) -> bool {
    &&& m.geometry == g
    &&& m.samples@.len() == steps_of(g) + 1
    &&& m.length == m.samples@.last().length
    &&& exists|points: Seq<Point>| #[trigger] samples_given(h, g, m.samples@, points)
}

impl MeasuredSegment {
    /// Measures a segment.
    pub fn new<
        C: Fn(&Calc) -> Scalar,
        P: Fn(&SegmentGeometry, Scalar) -> Point,
        T: Fn(&SegmentGeometry, Scalar) -> Point,
        S: Fn(&SegmentGeometry, Scalar, Scalar) -> SegmentGeometry,
    >(h: &MeasureTools<C, P, T, S>, geometry: SegmentGeometry) -> (r: MeasuredSegment)
        requires
            tools_ready(*h),
        ensures
            segment_measured(*h, geometry, r),
    {
        let calc = h.calc;
        let point = h.point;
        let zero = Scalar::from_bits(ZERO);
        let steps: usize = match geometry {
            SegmentGeometry::Line { .. } => 1,
            _ => PATH_CURVE_STEPS,
        };
        let mut previous = point(&geometry, zero);
        let mut length = zero;
        let mut samples: Vec<ArcSample> = Vec::new();
        samples.push(ArcSample { t: zero, length });
        let ghost mut points: Seq<Point> = seq![previous];
        let mut step: usize = 1;
        while step <= steps
            invariant
                tools_ready(*h),
                *calc == *h.calc,
                *point == *h.point,
                steps == steps_of(geometry),
                steps <= PATH_CURVE_STEPS,
                1 <= step <= steps + 1,
                samples@.len() == step,
                points.len() == step,
                samples@.last().length == length,
                points.last() == previous,
                samples_given(*h, geometry, samples@, points),
            decreases steps + 1 - step,
        {
            let ghost old_samples = samples@;
            let ghost old_points = points;
            let t = calc(&Calc::Part { step, steps });
            let here = point(&geometry, t);
            let d = calc(&Calc::Distance { from: previous, to: here });
            let next = calc(&Calc::Sum { a: length, b: d });
            samples.push(ArcSample { t, length: next });
            proof {
                points = points.push(here);
                assert(call_ensures(
                    *h.calc,
                    (&Calc::Distance { from: previous, to: here },),
                    d,
                ));
                assert(sample_follows(
                    *h,
                    geometry,
                    step as int,
                    (old_samples[step - 1], old_points[step - 1]),
                    (samples@[step as int], points[step as int]),
                ));
                assert forall|i: int| 1 <= i < samples@.len() implies sample_follows(
                    *h,
                    geometry,
                    i,
                    (samples@[i - 1], points[i - 1]),
                    (#[trigger] samples@[i], points[i]),
                ) by {
                    if i < step {
                        assert(samples@[i] == old_samples[i]);
                        assert(samples@[i - 1] == old_samples[i - 1]);
                        assert(points[i] == old_points[i]);
                        assert(points[i - 1] == old_points[i - 1]);
                    }
                }
            }
            length = next;
            previous = here;
            step = step + 1;
        }
        MeasuredSegment { geometry, samples, length }
    }
}

/// The first sample from `i` on whose length does not lie before a target.
pub open spec fn sample_from(samples: Seq<ArcSample>, target: Scalar, i: int) -> int
    decreases samples.len() - i,
{
    if i < 0 || i >= samples.len() {
        samples.len() as int
    } else if samples[i].length.lt_spec(target) {
        sample_from(samples, target, i + 1)
    } else {
        i
    }
}

/// The sample that ends the step in which a length lies.
pub open spec fn step_end(samples: Seq<ArcSample>, target: Scalar) -> int {
    let i = sample_from(samples, target, 0);
    if i < 1 {
        1
    } else if i > samples.len() - 1 {
        samples.len() - 1
    } else {
        i
    }
}

/// Whether `r` is the parameter of a segment at a length.
pub open spec fn parameter_given<C: Fn(&Calc) -> Scalar>(
    calc: C,
    m: MeasuredSegment,
    length: Scalar,
    r: Scalar,
) -> bool {
    if m.length.le_spec(num(ZERO)) {
        r == num(ZERO)
    } else {
        let target = length.clamp_spec(num(ZERO), m.length);
        let i = step_end(m.samples@, target);
        interpolated(calc, m.samples@[i - 1], m.samples@[i], target, r)
    }
}

/// Whether `r` is the parameter between two samples at a length.
pub open spec fn interpolated<C: Fn(&Calc) -> Scalar>(
    calc: C,
    before: ArcSample,
    after: ArcSample,
    target: Scalar,
    r: Scalar,
) -> bool {
    exists|span: Scalar| #[trigger]
        call_ensures(calc, (&Calc::Difference { a: after.length, b: before.length },), span)
            && if span.le_spec(num(ZERO)) {
            r == before.t
        } else {
            exists|part: Scalar| #[trigger]
                call_ensures(calc, (&Calc::Difference { a: target, b: before.length },), part)
                    && call_ensures(
                    calc,
                    (&Calc::Between { from: before.t, to: after.t, part, span },),
                    r,
                )
        }
}

fn parameter_at_length<C: Fn(&Calc) -> Scalar>(calc: &C, m: &MeasuredSegment, length: Scalar) -> (r:
    Scalar)
    requires
        forall|c: Calc| call_requires(*calc, (&c,)),
        m.samples@.len() >= 2,
    ensures
        parameter_given(*calc, *m, length, r),
{
    let zero = Scalar::from_bits(ZERO);
    if m.length.le(zero) {
        return zero;
    }
    let target = length.clamp(zero, m.length);
    let mut i: usize = 0;
    while i < m.samples.len() && m.samples[i].length.lt(target)
        invariant
            i <= m.samples@.len(),
            sample_from(m.samples@, target, 0) == sample_from(m.samples@, target, i as int),
        decreases m.samples@.len() - i,
    {
        i = i + 1;
    }
    assert(sample_from(m.samples@, target, i as int) == i);
    let index: usize = if i < 1 {
        1
    } else if i > m.samples.len() - 1 {
        m.samples.len() - 1
    } else {
        i
    };
    let before = m.samples[index - 1];
    let after = m.samples[index];
    let span = calc(&Calc::Difference { a: after.length, b: before.length });
    assert(call_ensures(
        *calc,
        (&Calc::Difference { a: after.length, b: before.length },),
        span,
    ));
    if span.le(zero) {
        before.t
    } else {
        let part = calc(&Calc::Difference { a: target, b: before.length });
        assert(call_ensures(*calc, (&Calc::Difference { a: target, b: before.length },), part));
        calc(&Calc::Between { from: before.t, to: after.t, part, span })
    }
}

/// A point of a path and its tangent there.
#[derive(Clone, Copy, Debug, PartialEq, Eq, Structural)]
pub struct PathSample {
    pub point: Point,
    pub tangent: Point,
}

/// Whether `r` is a segment at a length.
pub open spec fn segment_at<
    C: Fn(&Calc) -> Scalar,
    P: Fn(&SegmentGeometry, Scalar) -> Point,
    T: Fn(&SegmentGeometry, Scalar) -> Point,
    S: Fn(&SegmentGeometry, Scalar, Scalar) -> SegmentGeometry,
>(h: MeasureTools<C, P, T, S>, m: MeasuredSegment, length: Scalar, r: PathSample) -> bool {
    exists|t: Scalar| #[trigger]
        parameter_given(*h.calc, m, length, t) && call_ensures(
            *h.point,
            (&m.geometry, t),
            r.point,
        ) && call_ensures(*h.tangent, (&m.geometry, t), r.tangent)
}

fn sample_segment<
    C: Fn(&Calc) -> Scalar,
    P: Fn(&SegmentGeometry, Scalar) -> Point,
    T: Fn(&SegmentGeometry, Scalar) -> Point,
    S: Fn(&SegmentGeometry, Scalar, Scalar) -> SegmentGeometry,
>(h: &MeasureTools<C, P, T, S>, m: &MeasuredSegment, length: Scalar) -> (r: PathSample)
    requires
        tools_ready(*h),
        m.samples@.len() >= 2,
    ensures
        segment_at(*h, *m, length, r),
{
    let t = parameter_at_length(h.calc, m, length);
    let point = h.point;
    let tangent = h.tangent;
    PathSample { point: point(&m.geometry, t), tangent: tangent(&m.geometry, t) }
}

/// A path with its table of lengths, segment by segment.
#[derive(Debug)]
pub struct MeasuredPath {
    pub segments: Vec<MeasuredSegment>,
    /// Where each contour starts among the segments.
    pub starts: Vec<usize>,
    pub total: Scalar,
    pub first: Point,
}

/// The segments of the first `n` contours.
pub open spec fn segments_of(all: Seq<ContourShape>, n: nat) -> Seq<SegmentGeometry>
    decreases n,
{
    if n == 0 {
        Seq::empty()
    } else {
        segments_of(all, (n - 1) as nat) + all[n - 1].segments
    }
}

/// Where the first `n` contours start among the segments.
pub open spec fn starts_of(all: Seq<ContourShape>, n: nat) -> Seq<usize> {
    Seq::new(n, |i: int| segments_of(all, i as nat).len() as usize)
}

/// Whether measured segments are the segments of a path.
pub open spec fn all_measured<
    C: Fn(&Calc) -> Scalar,
    P: Fn(&SegmentGeometry, Scalar) -> Point,
    T: Fn(&SegmentGeometry, Scalar) -> Point,
    S: Fn(&SegmentGeometry, Scalar, Scalar) -> SegmentGeometry,
>(h: MeasureTools<C, P, T, S>, all: Seq<SegmentGeometry>, m: Seq<MeasuredSegment>) -> bool {
    m.len() == all.len() && forall|i: int|
        0 <= i < m.len() ==> segment_measured(h, all[i], #[trigger] m[i])
}

/// Whether these are the running sums of the lengths of segments.
pub open spec fn sums_given<C: Fn(&Calc) -> Scalar>(
    calc: C,
    m: Seq<MeasuredSegment>,
    sums: Seq<Scalar>,
) -> bool {
    &&& 1 <= sums.len() <= m.len() + 1
    &&& sums[0] == num(ZERO)
    &&& forall|i: int|
        1 <= i < sums.len() ==> call_ensures(
            calc,
            (&Calc::Sum { a: sums[i - 1], b: m[i - 1].length },),
            #[trigger] sums[i],
        )
}

/// Whether `total` is the sum of the lengths of segments.
pub open spec fn total_given<C: Fn(&Calc) -> Scalar>(
    calc: C,
    m: Seq<MeasuredSegment>,
    total: Scalar,
) -> bool {
    exists|sums: Seq<Scalar>| #[trigger]
        sums_given(calc, m, sums) && sums.len() == m.len() + 1 && total == sums.last()
}

pub open spec fn first_point(p: Path) -> Point {
    if p.points.len() > 0 {
        p.points[0]
    } else {
        Point { x: num(ZERO), y: num(ZERO) }
    }
}

/// Whether a measured path is a path with its table.
pub open spec fn path_measured<
    C: Fn(&Calc) -> Scalar,
    P: Fn(&SegmentGeometry, Scalar) -> Point,
    T: Fn(&SegmentGeometry, Scalar) -> Point,
    S: Fn(&SegmentGeometry, Scalar, Scalar) -> SegmentGeometry,
>(h: MeasureTools<C, P, T, S>, p: Path, r: MeasuredPath) -> bool {
    let all = contours_of(p);
    &&& p.valid()
    &&& r.first == first_point(p)
    &&& all_measured(h, segments_of(all, all.len()), r.segments@)
    &&& r.starts@ == starts_of(all, all.len())
    &&& total_given(*h.calc, r.segments@, r.total)
}

impl MeasuredPath {
    /// Measures a valid path.
    pub fn from_path<
        C: Fn(&Calc) -> Scalar,
        P: Fn(&SegmentGeometry, Scalar) -> Point,
        T: Fn(&SegmentGeometry, Scalar) -> Point,
        S: Fn(&SegmentGeometry, Scalar, Scalar) -> SegmentGeometry,
    >(h: &MeasureTools<C, P, T, S>, path: &PathData) -> (r: Result<MeasuredPath, GeometryError>)
        requires
            tools_ready(*h),
        ensures
            match r {
                Ok(m) => path_measured(*h, path@, m),
                Err(e) => path@.fault() == Some(e),
            },
    {
        let list = match contours(path) {
            Ok(v) => v,
            Err(e) => {
                return Err(e);
            },
        };
        let ghost all = contours_of(path@);
        assert(shapes(list@).len() == list@.len());
        let zero = Scalar::from_bits(ZERO);
        let first = if path.points.len() > 0 {
            path.points[0]
        } else {
            Point { x: zero, y: zero }
        };
        let mut segments: Vec<MeasuredSegment> = Vec::new();
        let mut starts: Vec<usize> = Vec::new();
        let mut c: usize = 0;
        assert(starts@ =~= starts_of(all, 0));
        while c < list.len()
            invariant
                tools_ready(*h),
                c <= list@.len(),
                shapes(list@) == all,
                all.len() == list@.len(),
                starts@ == starts_of(all, c as nat),
                all_measured(*h, segments_of(all, c as nat), segments@),
            decreases list@.len() - c,
        {
            let ghost before = segments_of(all, c as nat);
            let ghost old_starts = starts@;
            starts.push(segments.len());
            assert(starts@ =~= starts_of(all, (c + 1) as nat));
            assert(all[c as int] == list@[c as int]@);
            let ghost own = all[c as int].segments;
            let mut k: usize = 0;
            assert(before + own.take(0) =~= before);
            while k < list[c].segments.len()
                invariant
                    tools_ready(*h),
                    c < list@.len(),
                    own == list@[c as int].segments@,
                    k <= own.len(),
                    all_measured(*h, before + own.take(k as int), segments@),
                decreases own.len() - k,
            {
                let ghost old_segments = segments@;
                let ghost known = before + own.take(k as int);
                let m = MeasuredSegment::new(h, list[c].segments[k]);
                segments.push(m);
                proof {
                    let next = before + own.take(k + 1);
                    assert(next =~= known.push(own[k as int]));
                    assert forall|i: int| 0 <= i < segments@.len() implies segment_measured(
                        *h,
                        next[i],
                        #[trigger] segments@[i],
                    ) by {
                        if i < old_segments.len() {
                            assert(segments@[i] == old_segments[i]);
                        }
                    }
                }
                k = k + 1;
            }
            assert(own.take(k as int) =~= own);
            c = c + 1;
        }
        let calc = h.calc;
        let ghost mut sums: Seq<Scalar> = seq![num(ZERO)];
        let mut total = zero;
        let mut i: usize = 0;
        while i < segments.len()
            invariant
                tools_ready(*h),
                *calc == *h.calc,
                i <= segments@.len(),
                sums.len() == i + 1,
                sums.last() == total,
                sums_given(*h.calc, segments@, sums),
            decreases segments@.len() - i,
        {
            let next = calc(&Calc::Sum { a: total, b: segments[i].length });
            proof {
                let old_sums = sums;
                sums = sums.push(next);
                assert forall|k: int| 1 <= k < sums.len() implies call_ensures(
                    *h.calc,
                    (&Calc::Sum { a: sums[k - 1], b: segments@[k - 1].length },),
                    #[trigger] sums[k],
                ) by {
                    if k < old_sums.len() {
                        assert(sums[k] == old_sums[k]);
                        assert(sums[k - 1] == old_sums[k - 1]);
                    }
                }
            }
            total = next;
            i = i + 1;
        }
        assert(total_given(*h.calc, segments@, total));
        Ok(MeasuredPath { segments, starts, total, first })
    }
}

/// Whether `r` is where a target length falls from segment `i` on, after a consumed length.
pub open spec fn found_from<
    C: Fn(&Calc) -> Scalar,
    P: Fn(&SegmentGeometry, Scalar) -> Point,
    T: Fn(&SegmentGeometry, Scalar) -> Point,
    S: Fn(&SegmentGeometry, Scalar, Scalar) -> SegmentGeometry,
>(
    h: MeasureTools<C, P, T, S>,
    m: Seq<MeasuredSegment>,
    target: Scalar,
    i: int,
    consumed: Scalar,
    last: PathSample,
    r: PathSample,
) -> bool
    decreases m.len() - i,
{
    if i < 0 || i >= m.len() {
        r == last
    } else if m[i].length.le_spec(num(ZERO)) {
        found_from(h, m, target, i + 1, consumed, last, r)
    } else {
        exists|end: PathSample, through: Scalar|
            #![trigger segment_at(h, m[i], m[i].length, end), call_ensures(*h.calc, (&Calc::Sum { a: consumed, b: m[i].length },), through)]
            segment_at(h, m[i], m[i].length, end) && call_ensures(
                *h.calc,
                (&Calc::Sum { a: consumed, b: m[i].length },),
                through,
            ) && if target.le_spec(through) {
                hit(h, m[i], target, consumed, r)
            } else {
                found_from(h, m, target, i + 1, through, end, r)
            }
    }
}

/// Whether `r` is a segment at what is left of a target length.
pub open spec fn hit<
    C: Fn(&Calc) -> Scalar,
    P: Fn(&SegmentGeometry, Scalar) -> Point,
    T: Fn(&SegmentGeometry, Scalar) -> Point,
    S: Fn(&SegmentGeometry, Scalar, Scalar) -> SegmentGeometry,
>(
    h: MeasureTools<C, P, T, S>,
    m: MeasuredSegment,
    target: Scalar,
    consumed: Scalar,
    r: PathSample,
) -> bool {
    exists|rest: Scalar| #[trigger]
        call_ensures(*h.calc, (&Calc::Difference { a: target, b: consumed },), rest) && segment_at(
            h,
            m,
            rest,
            r,
        )
}

/// The sample of a path without length: its first point, facing right.
pub open spec fn at_rest(first: Point) -> PathSample {
    PathSample { point: first, tangent: Point { x: num(ONE), y: num(ZERO) } }
}

/// Whether `r` is a measured path at a fraction of its length.
pub open spec fn sampled<
    C: Fn(&Calc) -> Scalar,
    P: Fn(&SegmentGeometry, Scalar) -> Point,
    T: Fn(&SegmentGeometry, Scalar) -> Point,
    S: Fn(&SegmentGeometry, Scalar, Scalar) -> SegmentGeometry,
>(h: MeasureTools<C, P, T, S>, m: MeasuredPath, progress: Scalar, r: PathSample) -> bool {
    if m.total.le_spec(num(ZERO)) || !progress.finite() {
        r == at_rest(m.first)
    } else {
        exists|target: Scalar| #[trigger]
            call_ensures(
                *h.calc,
                (&Calc::Product {
                    a: m.total,
                    b: progress.clamp_spec(num(ZERO), num(ONE)),
                },),
                target,
            ) && found_from(h, m.segments@, target, 0, num(ZERO), at_rest(m.first), r)
    }
}

/// Whether every segment has a table.
pub open spec fn tables_ready(m: Seq<MeasuredSegment>) -> bool {
    forall|i: int| 0 <= i < m.len() ==> (#[trigger] m[i]).samples@.len() >= 2
}

impl MeasuredPath {
    /// The point and the tangent at a fraction of the length.
    pub fn sample<
        C: Fn(&Calc) -> Scalar,
        P: Fn(&SegmentGeometry, Scalar) -> Point,
        T: Fn(&SegmentGeometry, Scalar) -> Point,
        S: Fn(&SegmentGeometry, Scalar, Scalar) -> SegmentGeometry,
    >(&self, h: &MeasureTools<C, P, T, S>, progress: Scalar) -> (r: PathSample)
        requires
            tools_ready(*h),
            tables_ready(self.segments@),
        ensures
            sampled(*h, *self, progress, r),
    {
        let zero = Scalar::from_bits(ZERO);
        let one = Scalar::from_bits(ONE);
        let mut last = PathSample { point: self.first, tangent: Point { x: one, y: zero } };
        if self.total.le(zero) || !progress.is_finite() {
            return last;
        }
        let calc = h.calc;
        let target = calc(&Calc::Product { a: self.total, b: progress.clamp(zero, one) });
        let ghost start = last;
        let mut consumed = zero;
        let mut i: usize = 0;
        while i < self.segments.len()
            invariant
                tools_ready(*h),
                tables_ready(self.segments@),
                *calc == *h.calc,
                zero == num(ZERO),
                i <= self.segments@.len(),
                !(self.total.le_spec(num(ZERO)) || !progress.finite()),
                start == at_rest(self.first),
                call_ensures(
                    *h.calc,
                    (&Calc::Product {
                        a: self.total,
                        b: progress.clamp_spec(num(ZERO), num(ONE)),
                    },),
                    target,
                ),
                forall|r: PathSample| #[trigger]
                    found_from(*h, self.segments@, target, i as int, consumed, last, r)
                        ==> found_from(*h, self.segments@, target, 0, num(ZERO), start, r),
            decreases self.segments@.len() - i,
        {
            let m = &self.segments[i];
            if m.length.le(zero) {
                proof {
                    assert forall|r: PathSample| #[trigger]
                        found_from(
                            *h,
                            self.segments@,
                            target,
                            i + 1,
                            consumed,
                            last,
                            r,
                        ) implies found_from(
                        *h,
                        self.segments@,
                        target,
                        0,
                        num(ZERO),
                        start,
                        r,
                    ) by {
                        assert(found_from(
                            *h,
                            self.segments@,
                            target,
                            i as int,
                            consumed,
                            last,
                            r,
                        ));
                    }
                }
                i = i + 1;
                continue;
            }
            let end = sample_segment(h, m, m.length);
            let through = calc(&Calc::Sum { a: consumed, b: m.length });
            assert(segment_at(*h, *m, m.length, end));
            assert(call_ensures(*h.calc, (&Calc::Sum { a: consumed, b: m.length },), through));
            if target.le(through) {
                let rest = calc(&Calc::Difference { a: target, b: consumed });
                let r = sample_segment(h, m, rest);
                assert(hit(*h, *m, target, consumed, r));
                assert(found_from(
                    *h,
                    self.segments@,
                    target,
                    i as int,
                    consumed,
                    last,
                    r,
                ));
                return r;
            }
            proof {
                assert forall|r: PathSample| #[trigger]
                    found_from(*h, self.segments@, target, i + 1, through, end, r) implies found_from(
                    *h,
                    self.segments@,
                    target,
                    0,
                    num(ZERO),
                    start,
                    r,
                ) by {
                    assert(found_from(
                        *h,
                        self.segments@,
                        target,
                        i as int,
                        consumed,
                        last,
                        r,
                    ));
                }
            }
            last = end;
            consumed = through;
            i = i + 1;
        }
        assert(found_from(*h, self.segments@, target, i as int, consumed, last, last));
        last
    }
}

/// The larger of two numbers.
pub open spec fn larger(a: Scalar, b: Scalar) -> Scalar {
    if a.lt_spec(b) {
        b
    } else {
        a
    }
}

/// The smaller of two numbers.
pub open spec fn smaller(a: Scalar, b: Scalar) -> Scalar {
    if b.lt_spec(a) {
        b
    } else {
        a
    }
}

/// Whether `piece` is what a stretch of a path keeps of a segment.
pub open spec fn piece_given<
    C: Fn(&Calc) -> Scalar,
    P: Fn(&SegmentGeometry, Scalar) -> Point,
    T: Fn(&SegmentGeometry, Scalar) -> Point,
    S: Fn(&SegmentGeometry, Scalar, Scalar) -> SegmentGeometry,
>(
    h: MeasureTools<C, P, T, S>,
    m: MeasuredSegment,
    consumed: Scalar,
    low: Scalar,
    high: Scalar,
    piece: SegmentGeometry,
) -> bool {
    exists|t0: Scalar, t1: Scalar|
        #![trigger parameter_after(*h.calc, m, consumed, low, t0), parameter_after(*h.calc, m, consumed, high, t1)]
        parameter_after(*h.calc, m, consumed, low, t0) && parameter_after(
            *h.calc,
            m,
            consumed,
            high,
            t1,
        ) && call_ensures(*h.piece, (&m.geometry, t0, t1), piece)
}

/// Whether `t` is the parameter of a segment at a length of the whole path.
pub open spec fn parameter_after<C: Fn(&Calc) -> Scalar>(
    calc: C,
    m: MeasuredSegment,
    consumed: Scalar,
    length: Scalar,
    t: Scalar,
) -> bool {
    exists|d: Scalar| #[trigger]
        call_ensures(calc, (&Calc::Difference { a: length, b: consumed },), d) && parameter_given(
            calc,
            m,
            d,
            t,
        )
}

/// A path under construction with a segment behind it; a move comes first where none is open.
pub open spec fn with_piece(p: Path, open: bool, s: SegmentGeometry) -> Path {
    if open {
        Path { verbs: p.verbs.push(s.verb()), points: p.points + s.tail() }
    } else {
        Path {
            verbs: p.verbs.push(PathVerb::Move).push(s.verb()),
            points: p.points.push(s.start()) + s.tail(),
        }
    }
}

/// Whether a segment is the first of its contour.
pub open spec fn starts_at(starts: Seq<usize>, i: int) -> bool {
    exists|k: int| 0 <= k < starts.len() && #[trigger] starts[k] == i
}

/// Whether `r` is what the stretch between two lengths keeps of a path, from segment `i` on. `open`
/// says whether the contour was begun; `out` is the path so far.
pub open spec fn cut_from<
    C: Fn(&Calc) -> Scalar,
    P: Fn(&SegmentGeometry, Scalar) -> Point,
    T: Fn(&SegmentGeometry, Scalar) -> Point,
    S: Fn(&SegmentGeometry, Scalar, Scalar) -> SegmentGeometry,
>(
    h: MeasureTools<C, P, T, S>,
    m: MeasuredPath,
    from: Scalar,
    to: Scalar,
    i: int,
    consumed: Scalar,
    open: bool,
    out: Path,
    r: Path,
) -> bool
    decreases m.segments@.len() - i,
{
    if i < 0 || i >= m.segments@.len() {
        r == out
    } else {
        let seg = m.segments@[i];
        let begun = open && !starts_at(m.starts@, i);
        exists|through: Scalar| #[trigger]
            call_ensures(*h.calc, (&Calc::Sum { a: consumed, b: seg.length },), through) && {
                let low = larger(from, consumed);
                let high = smaller(to, through);
                if seg.length.le_spec(num(ZERO)) || high.le_spec(low) {
                    cut_from(h, m, from, to, i + 1, through, begun, out, r)
                } else {
                    exists|piece: SegmentGeometry| #[trigger]
                        piece_given(h, seg, consumed, low, high, piece) && cut_from(
                            h,
                            m,
                            from,
                            to,
                            i + 1,
                            through,
                            true,
                            with_piece(out, begun, piece),
                            r,
                        )
                }
            }
    }
}

pub open spec fn no_path() -> Path {
    Path { verbs: Seq::empty(), points: Seq::empty() }
}

/// Whether `r` is the stretch of a measured path between two fractions of its length.
pub open spec fn stretch_given<
    C: Fn(&Calc) -> Scalar,
    P: Fn(&SegmentGeometry, Scalar) -> Point,
    T: Fn(&SegmentGeometry, Scalar) -> Point,
    S: Fn(&SegmentGeometry, Scalar, Scalar) -> SegmentGeometry,
>(
    h: MeasureTools<C, P, T, S>,
    m: MeasuredPath,
    start: Scalar,
    end: Scalar,
    r: Result<Path, GeometryError>,
) -> bool {
    if m.total.le_spec(num(ZERO)) {
        r == Ok::<Path, GeometryError>(no_path())
    } else {
        exists|from: Scalar, to: Scalar, kept: Path|
            #![trigger stretch_kept(h, m, start, end, from, to, kept)]
            stretch_kept(h, m, start, end, from, to, kept) && r == checked(kept)
    }
}

pub open spec fn stretch_kept<
    C: Fn(&Calc) -> Scalar,
    P: Fn(&SegmentGeometry, Scalar) -> Point,
    T: Fn(&SegmentGeometry, Scalar) -> Point,
    S: Fn(&SegmentGeometry, Scalar, Scalar) -> SegmentGeometry,
>(
    h: MeasureTools<C, P, T, S>,
    m: MeasuredPath,
    start: Scalar,
    end: Scalar,
    from: Scalar,
    to: Scalar,
    kept: Path,
) -> bool {
    &&& call_ensures(*h.calc, (&Calc::Product { a: m.total, b: start },), from)
    &&& call_ensures(*h.calc, (&Calc::Product { a: m.total, b: end },), to)
    &&& cut_from(h, m, from, to, 0, num(ZERO), false, no_path(), kept)
}

fn is_start(starts: &Vec<usize>, i: usize) -> (r: bool)
    ensures
        r == starts_at(starts@, i as int),
{
    let mut k: usize = 0;
    while k < starts.len()
        invariant
            k <= starts@.len(),
            forall|j: int| 0 <= j < k ==> #[trigger] starts@[j] != i,
        decreases starts@.len() - k,
    {
        if starts[k] == i {
            assert(starts@[k as int] == i);
            return true;
        }
        k = k + 1;
    }
    false
}

fn cut_piece<
    C: Fn(&Calc) -> Scalar,
    P: Fn(&SegmentGeometry, Scalar) -> Point,
    T: Fn(&SegmentGeometry, Scalar) -> Point,
    S: Fn(&SegmentGeometry, Scalar, Scalar) -> SegmentGeometry,
>(
    h: &MeasureTools<C, P, T, S>,
    m: &MeasuredSegment,
    consumed: Scalar,
    low: Scalar,
    high: Scalar,
) -> (r: SegmentGeometry)
    requires
        tools_ready(*h),
        m.samples@.len() >= 2,
    ensures
        piece_given(*h, *m, consumed, low, high, r),
{
    let calc = h.calc;
    let piece = h.piece;
    let d0 = calc(&Calc::Difference { a: low, b: consumed });
    let t0 = parameter_at_length(calc, m, d0);
    assert(parameter_after(*h.calc, *m, consumed, low, t0));
    let d1 = calc(&Calc::Difference { a: high, b: consumed });
    let t1 = parameter_at_length(calc, m, d1);
    assert(parameter_after(*h.calc, *m, consumed, high, t1));
    piece(&m.geometry, t0, t1)
}

fn put_piece(verbs: &mut Vec<PathVerb>, points: &mut Vec<Point>, open: bool, s: SegmentGeometry)
    ensures
        (Path { verbs: final(verbs)@, points: final(points)@ }) == with_piece(
            (Path { verbs: old(verbs)@, points: old(points)@ }),
            open,
            s,
        ),
{
    if !open {
        verbs.push(PathVerb::Move);
        points.push(s.from());
    }
    s.push_verb_and_points(verbs, points);
}

impl MeasuredPath {
    /// The stretch between two fractions of the length; curves stay curves.
    pub fn trim<
        C: Fn(&Calc) -> Scalar,
        P: Fn(&SegmentGeometry, Scalar) -> Point,
        T: Fn(&SegmentGeometry, Scalar) -> Point,
        S: Fn(&SegmentGeometry, Scalar, Scalar) -> SegmentGeometry,
    >(&self, h: &MeasureTools<C, P, T, S>, start: Scalar, end: Scalar) -> (r: Result<
        PathData,
        GeometryError,
    >)
        requires
            tools_ready(*h),
            tables_ready(self.segments@),
        ensures
            stretch_given(*h, *self, start, end, path_seen(r)),
    {
        let zero = Scalar::from_bits(ZERO);
        let mut verbs: Vec<PathVerb> = Vec::new();
        let mut points: Vec<Point> = Vec::new();
        if self.total.le(zero) {
            assert(verbs@ =~= no_path().verbs && points@ =~= no_path().points);
            return Ok(PathData { verbs, points });
        }
        let calc = h.calc;
        let from = calc(&Calc::Product { a: self.total, b: start });
        let to = calc(&Calc::Product { a: self.total, b: end });
        let mut consumed = zero;
        let mut open = false;
        let mut i: usize = 0;
        assert(verbs@ =~= no_path().verbs && points@ =~= no_path().points);
        while i < self.segments.len()
            invariant
                tools_ready(*h),
                tables_ready(self.segments@),
                *calc == *h.calc,
                zero == num(ZERO),
                i <= self.segments@.len(),
                forall|r: Path| #[trigger]
                    cut_from(
                        *h,
                        *self,
                        from,
                        to,
                        i as int,
                        consumed,
                        open,
                        (Path { verbs: verbs@, points: points@ }),
                        r,
                    ) ==> cut_from(*h, *self, from, to, 0, num(ZERO), false, no_path(), r),
            decreases self.segments@.len() - i,
        {
            let m = &self.segments[i];
            let ghost out = Path { verbs: verbs@, points: points@ };
            let begun = open && !is_start(&self.starts, i);
            let through = calc(&Calc::Sum { a: consumed, b: m.length });
            assert(call_ensures(*h.calc, (&Calc::Sum { a: consumed, b: m.length },), through));
            let low = if from.lt(consumed) {
                consumed
            } else {
                from
            };
            let high = if through.lt(to) {
                through
            } else {
                to
            };
            let ghost was = open;
            if m.length.le(zero) || high.le(low) {
                proof {
                    assert forall|r: Path| #[trigger]
                        cut_from(
                            *h,
                            *self,
                            from,
                            to,
                            i + 1,
                            through,
                            begun,
                            out,
                            r,
                        ) implies cut_from(
                        *h,
                        *self,
                        from,
                        to,
                        0,
                        num(ZERO),
                        false,
                        no_path(),
                        r,
                    ) by {
                        assert(cut_from(
                            *h,
                            *self,
                            from,
                            to,
                            i as int,
                            consumed,
                            was,
                            out,
                            r,
                        ));
                    }
                }
                open = begun;
            } else {
                let piece = cut_piece(h, m, consumed, low, high);
                put_piece(&mut verbs, &mut points, begun, piece);
                proof {
                    assert(piece_given(*h, *m, consumed, low, high, piece));
                    let next = Path { verbs: verbs@, points: points@ };
                    assert forall|r: Path| #[trigger]
                        cut_from(
                            *h,
                            *self,
                            from,
                            to,
                            i + 1,
                            through,
                            true,
                            next,
                            r,
                        ) implies cut_from(
                        *h,
                        *self,
                        from,
                        to,
                        0,
                        num(ZERO),
                        false,
                        no_path(),
                        r,
                    ) by {
                        assert(cut_from(
                            *h,
                            *self,
                            from,
                            to,
                            i as int,
                            consumed,
                            was,
                            out,
                            r,
                        ));
                    }
                }
                open = true;
            }
            consumed = through;
            i = i + 1;
        }
        let ghost kept = Path { verbs: verbs@, points: points@ };
        assert(cut_from(*h, *self, from, to, i as int, consumed, open, kept, kept));
        assert(stretch_kept(*h, *self, start, end, from, to, kept));
        PathData::new(verbs, points)
    }
}

/// Whether `r` is the trimmed path: whole, empty, or a stretch of it.
pub open spec fn trim_given<
    C: Fn(&Calc) -> Scalar,
    P: Fn(&SegmentGeometry, Scalar) -> Point,
    T: Fn(&SegmentGeometry, Scalar) -> Point,
    S: Fn(&SegmentGeometry, Scalar, Scalar) -> SegmentGeometry,
>(
    h: MeasureTools<C, P, T, S>,
    p: Path,
    start: Scalar,
    end: Scalar,
    r: Result<Path, GeometryError>,
) -> bool {
    if p.fault() is Some {
        r == Err::<Path, GeometryError>(p.fault()->0)
    } else if !start.finite() || !end.finite() {
        r == Err::<Path, GeometryError>(GeometryError::NonFinite)
    } else {
        match trim_step(start, end) {
            TrimStep::Whole => r == Ok::<Path, GeometryError>(p),
            TrimStep::Empty => r == Ok::<Path, GeometryError>(no_path()),
            TrimStep::Cut(a, b) => exists|m: MeasuredPath| #[trigger]
                path_measured(h, p, m) && stretch_given(h, m, a, b, r),
        }
    }
}

/// Whether `r` is a path at a fraction of its length.
pub open spec fn path_sampled<
    C: Fn(&Calc) -> Scalar,
    P: Fn(&SegmentGeometry, Scalar) -> Point,
    T: Fn(&SegmentGeometry, Scalar) -> Point,
    S: Fn(&SegmentGeometry, Scalar, Scalar) -> SegmentGeometry,
>(h: MeasureTools<C, P, T, S>, p: Path, progress: Scalar, r: Result<PathSample, GeometryError>) -> bool {
    match r {
        Ok(s) => exists|m: MeasuredPath| #[trigger]
            path_measured(h, p, m) && sampled(h, m, progress, s),
        Err(e) => p.fault() == Some(e),
    }
}

proof fn measured_tables<
    C: Fn(&Calc) -> Scalar,
    P: Fn(&SegmentGeometry, Scalar) -> Point,
    T: Fn(&SegmentGeometry, Scalar) -> Point,
    S: Fn(&SegmentGeometry, Scalar, Scalar) -> SegmentGeometry,
>(h: MeasureTools<C, P, T, S>, p: Path, m: MeasuredPath)
    requires
        path_measured(h, p, m),
    ensures
        tables_ready(m.segments@),
{
    let all = segments_of(contours_of(p), contours_of(p).len());
    assert forall|i: int| 0 <= i < m.segments@.len() implies (#[trigger] m.segments@[i]).samples@.len()
        >= 2 by {
        assert(segment_measured(h, all[i], m.segments@[i]));
    }
}

impl PathData {
    /// What is left of a path between two fractions of its length.
    pub fn trim<
        C: Fn(&Calc) -> Scalar,
        P: Fn(&SegmentGeometry, Scalar) -> Point,
        T: Fn(&SegmentGeometry, Scalar) -> Point,
        S: Fn(&SegmentGeometry, Scalar, Scalar) -> SegmentGeometry,
    >(&self, h: &MeasureTools<C, P, T, S>, start: Scalar, end: Scalar) -> (r: Result<
        PathData,
        GeometryError,
    >)
        requires
            tools_ready(*h),
        ensures
            trim_given(*h, self@, start, end, path_seen(r)),
    {
        match self.trim_decision(start, end) {
            Err(e) => Err(e),
            Ok(TrimStep::Whole) => Ok(self.duplicate()),
            Ok(TrimStep::Empty) => {
                let verbs: Vec<PathVerb> = Vec::new();
                let points: Vec<Point> = Vec::new();
                assert(verbs@ =~= no_path().verbs && points@ =~= no_path().points);
                Ok(PathData { verbs, points })
            },
            Ok(TrimStep::Cut(a, b)) => match MeasuredPath::from_path(h, self) {
                Err(e) => Err(e),
                Ok(m) => {
                    proof {
                        measured_tables(*h, self@, m);
                    }
                    m.trim(h, a, b)
                },
            },
        }
    }

    /// The length of a path.
    pub fn path_length<
        C: Fn(&Calc) -> Scalar,
        P: Fn(&SegmentGeometry, Scalar) -> Point,
        T: Fn(&SegmentGeometry, Scalar) -> Point,
        S: Fn(&SegmentGeometry, Scalar, Scalar) -> SegmentGeometry,
    >(&self, h: &MeasureTools<C, P, T, S>) -> (r: Result<Scalar, GeometryError>)
        requires
            tools_ready(*h),
        ensures
            match r {
                Ok(x) => exists|m: MeasuredPath| #[trigger]
                    path_measured(*h, self@, m) && x == m.total,
                Err(e) => self@.fault() == Some(e),
            },
    {
        match MeasuredPath::from_path(h, self) {
            Ok(m) => Ok(m.total),
            Err(e) => Err(e),
        }
    }

    /// The point and the tangent at a fraction of the length.
    pub fn sample_at<
        C: Fn(&Calc) -> Scalar,
        P: Fn(&SegmentGeometry, Scalar) -> Point,
        T: Fn(&SegmentGeometry, Scalar) -> Point,
        S: Fn(&SegmentGeometry, Scalar, Scalar) -> SegmentGeometry,
    >(&self, h: &MeasureTools<C, P, T, S>, progress: Scalar) -> (r: Result<
        PathSample,
        GeometryError,
    >)
        requires
            tools_ready(*h),
        ensures
            path_sampled(*h, self@, progress, r),
    {
        match MeasuredPath::from_path(h, self) {
            Ok(m) => {
                proof {
                    measured_tables(*h, self@, m);
                }
                Ok(m.sample(h, progress))
            },
            Err(e) => Err(e),
        }
    }

    /// The point at a fraction of the length.
    pub fn point_at<
        C: Fn(&Calc) -> Scalar,
        P: Fn(&SegmentGeometry, Scalar) -> Point,
        T: Fn(&SegmentGeometry, Scalar) -> Point,
        S: Fn(&SegmentGeometry, Scalar, Scalar) -> SegmentGeometry,
    >(&self, h: &MeasureTools<C, P, T, S>, progress: Scalar) -> (r: Result<Point, GeometryError>)
        requires
            tools_ready(*h),
        ensures
            match r {
                Ok(p) => exists|s: PathSample| #[trigger]
                    path_sampled(*h, self@, progress, Ok(s)) && p == s.point,
                Err(e) => self@.fault() == Some(e),
            },
    {
        match self.sample_at(h, progress) {
            Ok(s) => Ok(s.point),
            Err(e) => Err(e),
        }
    }

    /// The tangent at a fraction of the length.
    pub fn tangent_at<
        C: Fn(&Calc) -> Scalar,
        P: Fn(&SegmentGeometry, Scalar) -> Point,
        T: Fn(&SegmentGeometry, Scalar) -> Point,
        S: Fn(&SegmentGeometry, Scalar, Scalar) -> SegmentGeometry,
    >(&self, h: &MeasureTools<C, P, T, S>, progress: Scalar) -> (r: Result<Point, GeometryError>)
        requires
            tools_ready(*h),
        ensures
            match r {
                Ok(p) => exists|s: PathSample| #[trigger]
                    path_sampled(*h, self@, progress, Ok(s)) && p == s.tangent,
                Err(e) => self@.fault() == Some(e),
            },
    {
        match self.sample_at(h, progress) {
            Ok(s) => Ok(s.tangent),
            Err(e) => Err(e),
        }
    }

    /// The direction at a fraction of the length, in degrees.
    pub fn angle_at<
        C: Fn(&Calc) -> Scalar,
        P: Fn(&SegmentGeometry, Scalar) -> Point,
        T: Fn(&SegmentGeometry, Scalar) -> Point,
        S: Fn(&SegmentGeometry, Scalar, Scalar) -> SegmentGeometry,
    >(&self, h: &MeasureTools<C, P, T, S>, progress: Scalar) -> (r: Result<Scalar, GeometryError>)
        requires
            tools_ready(*h),
        ensures
            match r {
                Ok(x) => exists|s: PathSample| #[trigger]
                    path_sampled(*h, self@, progress, Ok(s)) && call_ensures(
                        *h.calc,
                        (&Calc::Degrees { direction: s.tangent },),
                        x,
                    ),
                Err(e) => self@.fault() == Some(e),
            },
    {
        match self.sample_at(h, progress) {
            Ok(s) => {
                let calc = h.calc;
                Ok(calc(&Calc::Degrees { direction: s.tangent }))
            },
            Err(e) => Err(e),
        }
    }

    /// Points and tangents at several fractions of the length, from one table.
    pub fn samples_at<
        C: Fn(&Calc) -> Scalar,
        P: Fn(&SegmentGeometry, Scalar) -> Point,
        T: Fn(&SegmentGeometry, Scalar) -> Point,
        S: Fn(&SegmentGeometry, Scalar, Scalar) -> SegmentGeometry,
    >(&self, h: &MeasureTools<C, P, T, S>, progresses: &Vec<Scalar>) -> (r: Result<
        Vec<PathSample>,
        GeometryError,
    >)
        requires
            tools_ready(*h),
        ensures
            match r {
                Ok(v) => self@.fault() is None && v@.len() == progresses@.len() && forall|i: int|
                    0 <= i < v@.len() ==> path_sampled(
                        *h,
                        self@,
                        progresses@[i],
                        Ok(#[trigger] v@[i]),
                    ),
                Err(e) => self@.fault() == Some(e),
            },
    {
        match MeasuredPath::from_path(h, self) {
            Err(e) => Err(e),
            Ok(m) => {
                proof {
                    measured_tables(*h, self@, m);
                }
                let mut out: Vec<PathSample> = Vec::new();
                let mut i: usize = 0;
                while i < progresses.len()
                    invariant
                        tools_ready(*h),
                        tables_ready(m.segments@),
                        path_measured(*h, self@, m),
                        i <= progresses@.len(),
                        out@.len() == i,
                        forall|k: int|
                            0 <= k < out@.len() ==> path_sampled(
                                *h,
                                self@,
                                progresses@[k],
                                Ok(#[trigger] out@[k]),
                            ),
                    decreases progresses@.len() - i,
                {
                    let ghost before = out@;
                    let s = m.sample(h, progresses[i]);
                    assert(path_sampled(*h, self@, progresses@[i as int], Ok(s)));
                    out.push(s);
                    assert forall|k: int| 0 <= k < out@.len() implies path_sampled(
                        *h,
                        self@,
                        progresses@[k],
                        Ok(#[trigger] out@[k]),
                    ) by {
                        if k < i {
                            assert(out@[k] == before[k]);
                        }
                    }
                    i = i + 1;
                }
                Ok(out)
            },
        }
    }
}

} // verus!
