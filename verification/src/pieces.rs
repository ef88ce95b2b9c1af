//! Pieces of segments, cut by repeated interpolation.

use vstd::prelude::*;

use crate::contours::SegmentGeometry;
use crate::recording::Point;
use crate::scalar::{num, Scalar, ONE, ZERO};

verus! {

/// The points that cut a quadratic curve in two.
pub struct QuadCut {
    pub a: Point,
    pub b: Point,
    pub middle: Point,
}

/// The points that cut a cubic curve in two.
pub struct CubicCut {
    pub a: Point,
    pub b: Point,
    pub c: Point,
    pub d: Point,
    pub e: Point,
    pub middle: Point,
}

/// Whether a quadratic curve is cut at a parameter; `mix` is the host's point between two others.
pub open spec fn quad_cut<X: Fn(Point, Point, Scalar) -> Point>(
    mix: X,
    from: Point,
    control: Point,
    to: Point,
    t: Scalar,
    s: QuadCut,
) -> bool {
    &&& call_ensures(mix, (from, control, t), s.a)
    &&& call_ensures(mix, (control, to, t), s.b)
    &&& call_ensures(mix, (s.a, s.b, t), s.middle)
}

/// Whether a cubic curve is cut at a parameter.
pub open spec fn cubic_cut<X: Fn(Point, Point, Scalar) -> Point>(
    mix: X,
    from: Point,
    control_1: Point,
    control_2: Point,
    to: Point,
    t: Scalar,
    s: CubicCut,
) -> bool {
    &&& call_ensures(mix, (from, control_1, t), s.a)
    &&& call_ensures(mix, (control_1, control_2, t), s.b)
    &&& call_ensures(mix, (control_2, to, t), s.c)
    &&& call_ensures(mix, (s.a, s.b, t), s.d)
    &&& call_ensures(mix, (s.b, s.c, t), s.e)
    &&& call_ensures(mix, (s.d, s.e, t), s.middle)
}

/// Whether `t` is the start of a piece within what was cut off before its end.
pub open spec fn local_start<Q: Fn(Scalar, Scalar) -> Scalar>(
    divide: Q,
    t0: Scalar,
    t1: Scalar,
    t: Scalar,
) -> bool {
    if num(ZERO).lt_spec(t1) {
        call_ensures(divide, (t0, t1), t)
    } else {
        t == num(ZERO)
    }
}

/// Whether `r` is the piece of a quadratic curve between two parameters.
pub open spec fn quad_piece<
    X: Fn(Point, Point, Scalar) -> Point,
    Q: Fn(Scalar, Scalar) -> Scalar,
>(
    mix: X,
    divide: Q,
    from: Point,
    control: Point,
    to: Point,
    t0: Scalar,
    t1: Scalar,
    r: SegmentGeometry,
) -> bool {
    exists|s: QuadCut| #[trigger]
        quad_cut(mix, from, control, to, t1, s) && if t0.le_spec(num(ZERO)) {
            r == (SegmentGeometry::Quad { from, control: s.a, to: s.middle })
        } else {
            exists|t: Scalar, u: QuadCut|
                #![trigger local_start(divide, t0, t1, t), quad_cut(mix, from, s.a, s.middle, t, u)]
                local_start(divide, t0, t1, t) && quad_cut(mix, from, s.a, s.middle, t, u) && r
                    == (SegmentGeometry::Quad { from: u.middle, control: u.b, to: s.middle })
        }
}

/// Whether `r` is the piece of a cubic curve between two parameters.
pub open spec fn cubic_piece<
    X: Fn(Point, Point, Scalar) -> Point,
    Q: Fn(Scalar, Scalar) -> Scalar,
>(
    mix: X,
    divide: Q,
    from: Point,
    control_1: Point,
    control_2: Point,
    to: Point,
    t0: Scalar,
    t1: Scalar,
    r: SegmentGeometry,
) -> bool {
    exists|s: CubicCut| #[trigger]
        cubic_cut(mix, from, control_1, control_2, to, t1, s) && if t0.le_spec(num(ZERO)) {
            r == (SegmentGeometry::Cubic {
                from,
                control_1: s.a,
                control_2: s.d,
                to: s.middle,
            })
        } else {
            exists|t: Scalar, u: CubicCut|
                #![trigger local_start(divide, t0, t1, t), cubic_cut(mix, from, s.a, s.d, s.middle, t, u)]
                local_start(divide, t0, t1, t) && cubic_cut(
                    mix,
                    from,
                    s.a,
                    s.d,
                    s.middle,
                    t,
                    u,
                ) && r == (SegmentGeometry::Cubic {
                    from: u.middle,
                    control_1: u.e,
                    control_2: u.c,
                    to: s.middle,
                })
        }
}

/// Whether `r` is the piece of a segment between two parameters, which are kept in order and within 0
/// and 1.
pub open spec fn piece_of<X: Fn(Point, Point, Scalar) -> Point, Q: Fn(Scalar, Scalar) -> Scalar>(
    mix: X,
    divide: Q,
    s: SegmentGeometry,
    start: Scalar,
    end: Scalar,
    r: SegmentGeometry,
) -> bool {
    let t0 = start.clamp_spec(num(ZERO), num(ONE));
    let t1 = end.clamp_spec(t0, num(ONE));
    match s {
        SegmentGeometry::Line { from, to } => match r {
            SegmentGeometry::Line { from: a, to: b } => call_ensures(mix, (from, to, t0), a)
                && call_ensures(mix, (from, to, t1), b),
            _ => false,
        },
        SegmentGeometry::Quad { from, control, to } => quad_piece(
            mix,
            divide,
            from,
            control,
            to,
            t0,
            t1,
            r,
        ),
        SegmentGeometry::Cubic { from, control_1, control_2, to } => cubic_piece(
            mix,
            divide,
            from,
            control_1,
            control_2,
            to,
            t0,
            t1,
            r,
        ),
    }
}

fn cut_quad<X: Fn(Point, Point, Scalar) -> Point>(
    mix: &X,
    from: Point,
    control: Point,
    to: Point,
    t: Scalar,
) -> (r: QuadCut)
    requires
        forall|a: Point, b: Point, t: Scalar| call_requires(*mix, (a, b, t)),
    ensures
        quad_cut(*mix, from, control, to, t, r),
{
    let a = mix(from, control, t);
    let b = mix(control, to, t);
    let middle = mix(a, b, t);
    QuadCut { a, b, middle }
}

fn cut_cubic<X: Fn(Point, Point, Scalar) -> Point>(
    mix: &X,
    from: Point,
    control_1: Point,
    control_2: Point,
    to: Point,
    t: Scalar,
) -> (r: CubicCut)
    requires
        forall|a: Point, b: Point, t: Scalar| call_requires(*mix, (a, b, t)),
    ensures
        cubic_cut(*mix, from, control_1, control_2, to, t, r),
{
    let a = mix(from, control_1, t);
    let b = mix(control_1, control_2, t);
    let c = mix(control_2, to, t);
    let d = mix(a, b, t);
    let e = mix(b, c, t);
    let middle = mix(d, e, t);
    CubicCut { a, b, c, d, e, middle }
}

fn start_within<Q: Fn(Scalar, Scalar) -> Scalar>(divide: &Q, t0: Scalar, t1: Scalar) -> (r: Scalar)
    requires
        forall|a: Scalar, b: Scalar| call_requires(*divide, (a, b)),
    ensures
        local_start(*divide, t0, t1, r),
{
    let zero = Scalar::from_bits(ZERO);
    if zero.lt(t1) {
        divide(t0, t1)
    } else {
        zero
    }
}

impl SegmentGeometry {
    /// The piece of a segment between two parameters; a curve stays a curve of its kind.
    pub fn subsegment<X: Fn(Point, Point, Scalar) -> Point, Q: Fn(Scalar, Scalar) -> Scalar>(
        self,
        mix: &X,
        divide: &Q,
        start: Scalar,
        end: Scalar,
    ) -> (r: SegmentGeometry)
        requires
            forall|a: Point, b: Point, t: Scalar| call_requires(*mix, (a, b, t)),
            forall|a: Scalar, b: Scalar| call_requires(*divide, (a, b)),
        ensures
            piece_of(*mix, *divide, self, start, end, r),
            r.verb() == self.verb(),
    {
        let zero = Scalar::from_bits(ZERO);
        let one = Scalar::from_bits(ONE);
        let t0 = start.clamp(zero, one);
        let t1 = end.clamp(t0, one);
        match self {
            SegmentGeometry::Line { from, to } => SegmentGeometry::Line {
                from: mix(from, to, t0),
                to: mix(from, to, t1),
            },
            SegmentGeometry::Quad { from, control, to } => {
                let s = cut_quad(mix, from, control, to, t1);
                let r = if t0.le(zero) {
                    SegmentGeometry::Quad { from, control: s.a, to: s.middle }
                } else {
                    let t = start_within(divide, t0, t1);
                    let u = cut_quad(mix, from, s.a, s.middle, t);
                    assert(local_start(*divide, t0, t1, t) && quad_cut(
                        *mix,
                        from,
                        s.a,
                        s.middle,
                        t,
                        u,
                    ));
                    SegmentGeometry::Quad { from: u.middle, control: u.b, to: s.middle }
                };
                assert(quad_piece(*mix, *divide, from, control, to, t0, t1, r));
                r
            },
            SegmentGeometry::Cubic { from, control_1, control_2, to } => {
                let s = cut_cubic(mix, from, control_1, control_2, to, t1);
                let r = if t0.le(zero) {
                    SegmentGeometry::Cubic {
                        from,
                        control_1: s.a,
                        control_2: s.d,
                        to: s.middle,
                    }
                } else {
                    let t = start_within(divide, t0, t1);
                    let u = cut_cubic(mix, from, s.a, s.d, s.middle, t);
                    assert(local_start(*divide, t0, t1, t) && cubic_cut(
                        *mix,
                        from,
                        s.a,
                        s.d,
                        s.middle,
                        t,
                        u,
                    ));
                    SegmentGeometry::Cubic {
                        from: u.middle,
                        control_1: u.e,
                        control_2: u.c,
                        to: s.middle,
                    }
                };
                assert(cubic_piece(
                    *mix,
                    *divide,
                    from,
                    control_1,
                    control_2,
                    to,
                    t0,
                    t1,
                    r,
                ));
                r
            },
        }
    }
}

} // verus!
