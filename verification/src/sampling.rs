//! Laws of measured paths: one table drives every sample.

use vstd::prelude::*;

use crate::contours::{contours_of, SegmentGeometry};
use crate::measure::{
    at_rest, found_from, hit, interpolated, parameter_given, path_measured, path_sampled,
    sample_follows, sampled, samples_given, segment_at, segment_measured, segments_of, step_end,
    steps_of, sums_given, total_given, ArcSample, Calc, MeasureTools, MeasuredPath,
    MeasuredSegment, PathSample,
};
use crate::path::Path;
use crate::recording::Point;
use crate::scalar::{num, Scalar, ONE, ZERO};

verus! {

/// Whether the host computes in one way only.
pub open spec fn single_valued<
    C: Fn(&Calc) -> Scalar,
    P: Fn(&SegmentGeometry, Scalar) -> Point,
    T: Fn(&SegmentGeometry, Scalar) -> Point,
    S: Fn(&SegmentGeometry, Scalar, Scalar) -> SegmentGeometry,
>(h: MeasureTools<C, P, T, S>) -> bool {
    &&& forall|c: Calc, a: Scalar, b: Scalar| #[trigger]
        call_ensures(*h.calc, (&c,), a) && #[trigger] call_ensures(*h.calc, (&c,), b) ==> a == b
    &&& forall|g: SegmentGeometry, t: Scalar, a: Point, b: Point| #[trigger]
        call_ensures(*h.point, (&g, t), a) && #[trigger] call_ensures(*h.point, (&g, t), b) ==> a
            == b
    &&& forall|g: SegmentGeometry, t: Scalar, a: Point, b: Point| #[trigger]
        call_ensures(*h.tangent, (&g, t), a) && #[trigger] call_ensures(*h.tangent, (&g, t), b)
            ==> a == b
}

/// Whether two measured segments have the same table.
pub open spec fn same_table(a: MeasuredSegment, b: MeasuredSegment) -> bool {
    a.geometry == b.geometry && a.samples@ == b.samples@ && a.length == b.length
}

proof fn steps_agree<
    C: Fn(&Calc) -> Scalar,
    P: Fn(&SegmentGeometry, Scalar) -> Point,
    T: Fn(&SegmentGeometry, Scalar) -> Point,
    S: Fn(&SegmentGeometry, Scalar, Scalar) -> SegmentGeometry,
>(
    h: MeasureTools<C, P, T, S>,
    g: SegmentGeometry,
    i: int,
    before: (ArcSample, Point),
    a: (ArcSample, Point),
    b: (ArcSample, Point),
)
    requires
        single_valued(h),
        sample_follows(h, g, i, before, a),
        sample_follows(h, g, i, before, b),
    ensures
        a == b,
{
    let part = Calc::Part { step: i as usize, steps: steps_of(g) as usize };
    assert(call_ensures(*h.calc, (&part,), a.0.t) && call_ensures(*h.calc, (&part,), b.0.t));
    assert(call_ensures(*h.point, (&g, a.0.t), a.1) && call_ensures(*h.point, (&g, a.0.t), b.1));
    let far = Calc::Distance { from: before.1, to: a.1 };
    let d = choose|d: Scalar| #[trigger]
        call_ensures(*h.calc, (&far,), d) && call_ensures(
            *h.calc,
            (&Calc::Sum { a: before.0.length, b: d },),
            a.0.length,
        );
    let e = choose|d: Scalar| #[trigger]
        call_ensures(*h.calc, (&Calc::Distance { from: before.1, to: b.1 },), d) && call_ensures(
            *h.calc,
            (&Calc::Sum { a: before.0.length, b: d },),
            b.0.length,
        );
    assert(call_ensures(*h.calc, (&far,), d) && call_ensures(*h.calc, (&far,), e));
    let sum = Calc::Sum { a: before.0.length, b: d };
    assert(call_ensures(*h.calc, (&sum,), a.0.length) && call_ensures(
        *h.calc,
        (&sum,),
        b.0.length,
    ));
}

proof fn tables_agree<
    C: Fn(&Calc) -> Scalar,
    P: Fn(&SegmentGeometry, Scalar) -> Point,
    T: Fn(&SegmentGeometry, Scalar) -> Point,
    S: Fn(&SegmentGeometry, Scalar, Scalar) -> SegmentGeometry,
>(
    h: MeasureTools<C, P, T, S>,
    g: SegmentGeometry,
    a: Seq<ArcSample>,
    p: Seq<Point>,
    b: Seq<ArcSample>,
    q: Seq<Point>,
    i: int,
)
    requires
        single_valued(h),
        samples_given(h, g, a, p),
        samples_given(h, g, b, q),
        0 <= i < a.len(),
        i < b.len(),
    ensures
        a[i] == b[i],
        p[i] == q[i],
    decreases i,
{
    if i == 0 {
        assert(call_ensures(*h.point, (&g, num(ZERO)), p[0]) && call_ensures(
            *h.point,
            (&g, num(ZERO)),
            q[0],
        ));
    } else {
        tables_agree(h, g, a, p, b, q, i - 1);
        assert(sample_follows(h, g, i, (a[i - 1], p[i - 1]), (a[i], p[i])));
        assert(sample_follows(h, g, i, (b[i - 1], q[i - 1]), (b[i], q[i])));
        steps_agree(h, g, i, (a[i - 1], p[i - 1]), (a[i], p[i]), (b[i], q[i]));
    }
}

/// A segment has one table.
pub proof fn tables_are_determined<
    C: Fn(&Calc) -> Scalar,
    P: Fn(&SegmentGeometry, Scalar) -> Point,
    T: Fn(&SegmentGeometry, Scalar) -> Point,
    S: Fn(&SegmentGeometry, Scalar, Scalar) -> SegmentGeometry,
>(h: MeasureTools<C, P, T, S>, g: SegmentGeometry, a: MeasuredSegment, b: MeasuredSegment)
    requires
        single_valued(h),
        segment_measured(h, g, a),
        segment_measured(h, g, b),
    ensures
        same_table(a, b),
{
    let p = choose|points: Seq<Point>| #[trigger] samples_given(h, g, a.samples@, points);
    let q = choose|points: Seq<Point>| #[trigger] samples_given(h, g, b.samples@, points);
    assert forall|i: int| 0 <= i < a.samples@.len() implies a.samples@[i] == b.samples@[i] by {
        tables_agree(h, g, a.samples@, p, b.samples@, q, i);
    }
    assert(a.samples@ =~= b.samples@);
}

proof fn parameters_agree<
    C: Fn(&Calc) -> Scalar,
    P: Fn(&SegmentGeometry, Scalar) -> Point,
    T: Fn(&SegmentGeometry, Scalar) -> Point,
    S: Fn(&SegmentGeometry, Scalar, Scalar) -> SegmentGeometry,
>(
    h: MeasureTools<C, P, T, S>,
    a: MeasuredSegment,
    b: MeasuredSegment,
    length: Scalar,
    r: Scalar,
    s: Scalar,
)
    requires
        single_valued(h),
        same_table(a, b),
        parameter_given(*h.calc, a, length, r),
        parameter_given(*h.calc, b, length, s),
    ensures
        r == s,
{
    if !a.length.le_spec(num(ZERO)) {
        let target = length.clamp_spec(num(ZERO), a.length);
        let i = step_end(a.samples@, target);
        let x = a.samples@[i - 1];
        let y = a.samples@[i];
        let over = Calc::Difference { a: y.length, b: x.length };
        let left = Calc::Difference { a: target, b: x.length };
        assert(interpolated(*h.calc, x, y, target, r));
        assert(interpolated(*h.calc, x, y, target, s));
        let span = choose|span: Scalar| #[trigger]
            call_ensures(*h.calc, (&over,), span) && if span.le_spec(num(ZERO)) {
                r == x.t
            } else {
                exists|part: Scalar| #[trigger]
                    call_ensures(*h.calc, (&left,), part) && call_ensures(
                        *h.calc,
                        (&Calc::Between { from: x.t, to: y.t, part, span },),
                        r,
                    )
            };
        let wide = choose|span: Scalar| #[trigger]
            call_ensures(*h.calc, (&over,), span) && if span.le_spec(num(ZERO)) {
                s == x.t
            } else {
                exists|part: Scalar| #[trigger]
                    call_ensures(*h.calc, (&left,), part) && call_ensures(
                        *h.calc,
                        (&Calc::Between { from: x.t, to: y.t, part, span },),
                        s,
                    )
            };
        assert(call_ensures(*h.calc, (&over,), span) && call_ensures(*h.calc, (&over,), wide));
        if !span.le_spec(num(ZERO)) {
            let part = choose|part: Scalar| #[trigger]
                call_ensures(*h.calc, (&left,), part) && call_ensures(
                    *h.calc,
                    (&Calc::Between { from: x.t, to: y.t, part, span },),
                    r,
                );
            let rest = choose|part: Scalar| #[trigger]
                call_ensures(*h.calc, (&left,), part) && call_ensures(
                    *h.calc,
                    (&Calc::Between { from: x.t, to: y.t, part, span },),
                    s,
                );
            assert(call_ensures(*h.calc, (&left,), part) && call_ensures(*h.calc, (&left,), rest));
            let between = Calc::Between { from: x.t, to: y.t, part, span };
            assert(call_ensures(*h.calc, (&between,), r) && call_ensures(*h.calc, (&between,), s));
        }
    }
}

proof fn segments_agree<
    C: Fn(&Calc) -> Scalar,
    P: Fn(&SegmentGeometry, Scalar) -> Point,
    T: Fn(&SegmentGeometry, Scalar) -> Point,
    S: Fn(&SegmentGeometry, Scalar, Scalar) -> SegmentGeometry,
>(
    h: MeasureTools<C, P, T, S>,
    a: MeasuredSegment,
    b: MeasuredSegment,
    length: Scalar,
    r: PathSample,
    s: PathSample,
)
    requires
        single_valued(h),
        same_table(a, b),
        segment_at(h, a, length, r),
        segment_at(h, b, length, s),
    ensures
        r == s,
{
    let t = choose|t: Scalar| #[trigger]
        parameter_given(*h.calc, a, length, t) && call_ensures(
            *h.point,
            (&a.geometry, t),
            r.point,
        ) && call_ensures(*h.tangent, (&a.geometry, t), r.tangent);
    let u = choose|t: Scalar| #[trigger]
        parameter_given(*h.calc, b, length, t) && call_ensures(
            *h.point,
            (&b.geometry, t),
            s.point,
        ) && call_ensures(*h.tangent, (&b.geometry, t), s.tangent);
    parameters_agree(h, a, b, length, t, u);
    assert(call_ensures(*h.point, (&a.geometry, t), r.point) && call_ensures(
        *h.point,
        (&a.geometry, t),
        s.point,
    ));
    assert(call_ensures(*h.tangent, (&a.geometry, t), r.tangent) && call_ensures(
        *h.tangent,
        (&a.geometry, t),
        s.tangent,
    ));
}

/// Whether two lists of measured segments have the same tables.
pub open spec fn same_tables(a: Seq<MeasuredSegment>, b: Seq<MeasuredSegment>) -> bool {
    a.len() == b.len() && forall|i: int|
        0 <= i < a.len() ==> same_table(#[trigger] a[i], #[trigger] b[i])
}

proof fn searches_agree<
    C: Fn(&Calc) -> Scalar,
    P: Fn(&SegmentGeometry, Scalar) -> Point,
    T: Fn(&SegmentGeometry, Scalar) -> Point,
    S: Fn(&SegmentGeometry, Scalar, Scalar) -> SegmentGeometry,
>(
    h: MeasureTools<C, P, T, S>,
    a: Seq<MeasuredSegment>,
    b: Seq<MeasuredSegment>,
    target: Scalar,
    i: int,
    consumed: Scalar,
    last: PathSample,
    r: PathSample,
    s: PathSample,
)
    requires
        single_valued(h),
        same_tables(a, b),
        0 <= i,
        found_from(h, a, target, i, consumed, last, r),
        found_from(h, b, target, i, consumed, last, s),
    ensures
        r == s,
    decreases a.len() - i,
{
    if i < a.len() {
        assert(same_table(a[i], b[i]));
        if a[i].length.le_spec(num(ZERO)) {
            searches_agree(h, a, b, target, i + 1, consumed, last, r, s);
        } else {
            let sum = Calc::Sum { a: consumed, b: a[i].length };
            let (end, through) = choose|end: PathSample, through: Scalar|
                #![trigger segment_at(h, a[i], a[i].length, end), call_ensures(*h.calc, (&sum,), through)]
                segment_at(h, a[i], a[i].length, end) && call_ensures(*h.calc, (&sum,), through)
                    && if target.le_spec(through) {
                    hit(h, a[i], target, consumed, r)
                } else {
                    found_from(h, a, target, i + 1, through, end, r)
                };
            let (stop, past) = choose|end: PathSample, through: Scalar|
                #![trigger segment_at(h, b[i], b[i].length, end), call_ensures(*h.calc, (&sum,), through)]
                segment_at(h, b[i], b[i].length, end) && call_ensures(*h.calc, (&sum,), through)
                    && if target.le_spec(through) {
                    hit(h, b[i], target, consumed, s)
                } else {
                    found_from(h, b, target, i + 1, through, end, s)
                };
            assert(call_ensures(*h.calc, (&sum,), through) && call_ensures(
                *h.calc,
                (&sum,),
                past,
            ));
            segments_agree(h, a[i], b[i], a[i].length, end, stop);
            if target.le_spec(through) {
                let gap = Calc::Difference { a: target, b: consumed };
                let x = choose|rest: Scalar| #[trigger]
                    call_ensures(*h.calc, (&gap,), rest) && segment_at(h, a[i], rest, r);
                let y = choose|rest: Scalar| #[trigger]
                    call_ensures(*h.calc, (&gap,), rest) && segment_at(h, b[i], rest, s);
                assert(call_ensures(*h.calc, (&gap,), x) && call_ensures(*h.calc, (&gap,), y));
                segments_agree(h, a[i], b[i], x, r, s);
            } else {
                searches_agree(h, a, b, target, i + 1, through, end, r, s);
            }
        }
    }
}

proof fn sums_agree<
    C: Fn(&Calc) -> Scalar,
    P: Fn(&SegmentGeometry, Scalar) -> Point,
    T: Fn(&SegmentGeometry, Scalar) -> Point,
    S: Fn(&SegmentGeometry, Scalar, Scalar) -> SegmentGeometry,
>(
    h: MeasureTools<C, P, T, S>,
    a: Seq<MeasuredSegment>,
    b: Seq<MeasuredSegment>,
    x: Seq<Scalar>,
    y: Seq<Scalar>,
    i: int,
)
    requires
        single_valued(h),
        same_tables(a, b),
        sums_given(*h.calc, a, x),
        sums_given(*h.calc, b, y),
        0 <= i < x.len(),
        i < y.len(),
    ensures
        x[i] == y[i],
    decreases i,
{
    if i > 0 {
        sums_agree(h, a, b, x, y, i - 1);
        assert(same_table(a[i - 1], b[i - 1]));
        let sum = Calc::Sum { a: x[i - 1], b: a[i - 1].length };
        assert(call_ensures(*h.calc, (&sum,), x[i]) && call_ensures(*h.calc, (&sum,), y[i]));
    }
}

/// A path has one table and one length, where the host computes in one way only.
pub proof fn lengths_are_determined<
    C: Fn(&Calc) -> Scalar,
    P: Fn(&SegmentGeometry, Scalar) -> Point,
    T: Fn(&SegmentGeometry, Scalar) -> Point,
    S: Fn(&SegmentGeometry, Scalar, Scalar) -> SegmentGeometry,
>(h: MeasureTools<C, P, T, S>, p: Path, a: MeasuredPath, b: MeasuredPath)
    requires
        single_valued(h),
        path_measured(h, p, a),
        path_measured(h, p, b),
    ensures
        same_tables(a.segments@, b.segments@),
        a.total == b.total,
        a.first == b.first,
        a.starts@ == b.starts@,
{
    let all = segments_of(contours_of(p), contours_of(p).len());
    assert forall|i: int| 0 <= i < a.segments@.len() implies same_table(
        #[trigger] a.segments@[i],
        #[trigger] b.segments@[i],
    ) by {
        assert(segment_measured(h, all[i], a.segments@[i]));
        assert(segment_measured(h, all[i], b.segments@[i]));
        tables_are_determined(h, all[i], a.segments@[i], b.segments@[i]);
    }
    assert(total_given(*h.calc, a.segments@, a.total));
    assert(total_given(*h.calc, b.segments@, b.total));
    let x = choose|sums: Seq<Scalar>| #[trigger]
        sums_given(*h.calc, a.segments@, sums) && sums.len() == a.segments@.len() + 1 && a.total
            == sums.last();
    let y = choose|sums: Seq<Scalar>| #[trigger]
        sums_given(*h.calc, b.segments@, sums) && sums.len() == b.segments@.len() + 1 && b.total
            == sums.last();
    sums_agree(h, a.segments@, b.segments@, x, y, x.len() - 1);
}

/// Samples of a path at one fraction of its length are the same, however they are taken: alone, among
/// others, or for their point, tangent or angle only.
pub proof fn samples_are_pointwise_identical<
    C: Fn(&Calc) -> Scalar,
    P: Fn(&SegmentGeometry, Scalar) -> Point,
    T: Fn(&SegmentGeometry, Scalar) -> Point,
    S: Fn(&SegmentGeometry, Scalar, Scalar) -> SegmentGeometry,
>(h: MeasureTools<C, P, T, S>, p: Path, progress: Scalar, r: PathSample, s: PathSample)
    requires
        single_valued(h),
        path_sampled(h, p, progress, Ok(r)),
        path_sampled(h, p, progress, Ok(s)),
    ensures
        r == s,
{
    let a = choose|m: MeasuredPath| #[trigger]
        path_measured(h, p, m) && sampled(h, m, progress, r);
    let b = choose|m: MeasuredPath| #[trigger]
        path_measured(h, p, m) && sampled(h, m, progress, s);
    lengths_are_determined(h, p, a, b);
    if !(a.total.le_spec(num(ZERO)) || !progress.finite()) {
        let product = Calc::Product {
            a: a.total,
            b: progress.clamp_spec(num(ZERO), num(ONE)),
        };
        let x = choose|target: Scalar| #[trigger]
            call_ensures(*h.calc, (&product,), target) && found_from(
                h,
                a.segments@,
                target,
                0,
                num(ZERO),
                at_rest(a.first),
                r,
            );
        let y = choose|target: Scalar| #[trigger]
            call_ensures(*h.calc, (&product,), target) && found_from(
                h,
                b.segments@,
                target,
                0,
                num(ZERO),
                at_rest(b.first),
                s,
            );
        assert(call_ensures(*h.calc, (&product,), x) && call_ensures(*h.calc, (&product,), y));
        searches_agree(h, a.segments@, b.segments@, x, 0, num(ZERO), at_rest(a.first), r, s);
    }
}

} // verus!
