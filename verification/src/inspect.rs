//! Samples of a node's animated properties over a range of frames.

use vstd::prelude::*;

use crate::artifact::{SceneArtifact, SceneNode, StyleBinding};
use crate::eval::{Kernel, KernelError, ResolvedProps};
use crate::expr::{post_layout_dependent, reads_layout, reads_unit, unit_dependent, Expr, ExprId};
use crate::faults::EvalError;
use crate::instants::{
    all_known, any_steps, instant, instant_given, instant_seen, live_exprs, live_of, steps,
    tools_ready, Branch, Moment, Probe, SampleHost, Sampled,
};
use crate::passes::{after_layout, flags_are, of_units};
use crate::props::resolve_props;
use crate::scalar::{integer_bits, Scalar};
use crate::table::{same_text, Entry};
use crate::value::{Angle, Length2, MotionValue};

verus! {

/// Most points in one answer.
pub const MAX_POINTS: u32 = 240;

/// Most expressions that a sampled property may read.
pub const MAX_LIVE: usize = 4096;

/// Which samples are asked for.
#[derive(Debug)]
pub struct PropertySampleRequest {
    pub node: String,
    pub start_frame: u32,
    pub end_frame: u32,
    pub max_points: u32,
    pub duration_frames: u32,
    /// How many frames the first phase takes of the duration, and how many the second.
    pub enter_frames: u32,
    pub hold_frames: u32,
    pub props: Vec<Entry<MotionValue>>,
    pub width: u32,
    pub height: u32,
}

/// Why a sample has no velocity.
#[derive(Clone, Copy, Debug, PartialEq, Eq, Structural)]
pub enum Boundary {
    Discrete,
    Branch,
}

impl Boundary {
    /// What the boundary reads as.
    pub fn text(self) -> (r: &'static str)
        ensures
            r@ == (match self {
                Boundary::Discrete => "discrete expression"@,
                Boundary::Branch => "branch or segment boundary"@,
            }),
    {
        match self {
            Boundary::Discrete => "discrete expression",
            Boundary::Branch => "branch or segment boundary",
        }
    }
}

/// A property at a frame. Velocity is a central difference over the adjacent frames, absent at the
/// ends and where the value may jump.
#[derive(Debug)]
pub struct PropertyPoint {
    pub frame: u32,
    pub value: Vec<Scalar>,
    pub velocity: Option<Vec<Scalar>>,
    pub boundary: Option<Boundary>,
}

/// The samples of one property, or why there are none.
#[derive(Debug)]
pub struct PropertyChannel {
    pub property: Sampled,
    pub samples: Vec<PropertyPoint>,
    pub unavailable: Option<String>,
}

/// The samples of a node.
#[derive(Debug)]
pub struct PropertySamples {
    pub node: String,
    pub channels: Vec<PropertyChannel>,
    pub frames: Vec<u32>,
    /// The frames on which the second and the third phase begin.
    pub phase_boundaries: [u32; 2],
}

/// The frames on which the phases after the first begin.
pub fn phase_boundaries(enter: u32, hold: u32) -> (r: [u32; 2])
    requires
        enter + hold <= u32::MAX,
    ensures
        r@ == seq![enter, (enter + hold) as u32],
{
    let r = [enter, enter + hold];
    assert(r@ =~= seq![enter, (enter + hold) as u32]);
    r
}

/// Whether a request can be answered.
pub open spec fn is_valid(q: PropertySampleRequest) -> bool {
    &&& q.duration_frames > 0
    &&& q.start_frame <= q.end_frame < q.duration_frames
    &&& 2 <= q.max_points <= MAX_POINTS
    &&& q.width > 0 && q.height > 0
}

/// How many frames are sampled.
pub open spec fn frame_count(q: PropertySampleRequest) -> nat {
    let span = q.end_frame - q.start_frame;
    if q.max_points <= span + 1 {
        q.max_points as nat
    } else {
        (span + 1) as nat
    }
}

/// The frame of a sample: evenly spaced from the first frame to the last.
pub open spec fn frame_at(q: PropertySampleRequest, i: int) -> int {
    let gaps = if frame_count(q) > 1 { frame_count(q) - 1 } else { 1 };
    q.start_frame + i * (q.end_frame - q.start_frame) / gaps
}

/// The frames that are sampled.
pub fn sample_frames(q: &PropertySampleRequest) -> (r: Vec<u32>)
    requires
        is_valid(*q),
    ensures
        r@.len() == frame_count(*q),
        forall|i: int|
            0 <= i < r@.len() ==> #[trigger] r@[i] == frame_at(*q, i) && q.start_frame <= r@[i]
                <= q.end_frame,
{
    let span: u32 = q.end_frame - q.start_frame;
    let count: u32 = if q.max_points - 1 <= span {
        q.max_points
    } else {
        span + 1
    };
    let gaps: u64 = if count > 1 {
        (count - 1) as u64
    } else {
        1
    };
    let mut out: Vec<u32> = Vec::new();
    let mut i: u32 = 0;
    while i < count
        invariant
            is_valid(*q),
            span == q.end_frame - q.start_frame,
            count == frame_count(*q),
            gaps == (if count > 1 {
                count - 1
            } else {
                1
            }),
            i <= count,
            out@.len() == i,
            forall|k: int|
                0 <= k < out@.len() ==> #[trigger] out@[k] == frame_at(*q, k) && q.start_frame
                    <= out@[k] <= q.end_frame,
        decreases count - i,
    {
        assert(i as int * span as int <= 240 * 0xffff_ffff) by (nonlinear_arith)
            requires
                i <= 240,
                span <= 0xffff_ffff,
        ;
        assert(0 <= i as int * span as int) by (nonlinear_arith);
        let product: u64 = i as u64 * span as u64;
        let step: u64 = product / gaps;
        assert(0 <= product as int / gaps as int <= span) by (nonlinear_arith)
            requires
                product == i as int * span as int,
                i <= gaps,
                gaps >= 1,
        ;
        let frame: u32 = q.start_frame + step as u32;
        assert(frame == frame_at(*q, i as int));
        out.push(frame);
        i = i + 1;
    }
    out
}

/// Sampled frames start at the first frame of the range, strictly increase, and end at the last one.
pub proof fn frames_cover_the_range(q: PropertySampleRequest, i: int, j: int)
    requires
        is_valid(q),
        0 <= i <= j < frame_count(q),
    ensures
        frame_at(q, 0) == q.start_frame,
        i < j ==> frame_at(q, i) < frame_at(q, j),
        frame_at(q, frame_count(q) - 1) == q.end_frame,
{
    let span = q.end_frame - q.start_frame;
    let gaps = if frame_count(q) > 1 { frame_count(q) - 1 } else { 1 };
    assert(0 * span / gaps == 0) by (nonlinear_arith)
        requires
            gaps >= 1,
    ;
    if i < j {
        assert(gaps <= span);
        assert(i * span + gaps <= j * span) by (nonlinear_arith)
            requires
                i + 1 <= j,
                gaps <= span,
                span >= 0,
        ;
        vstd::arithmetic::div_mod::lemma_div_is_ordered(
            i * span + gaps,
            j * span,
            gaps as int,
        );
        assert((i * span + gaps) / gaps == (i * span) / gaps + 1) by (nonlinear_arith)
            requires
                gaps >= 1,
        ;
    }
    if frame_count(q) > 1 {
        assert((gaps * span) / gaps == span) by (nonlinear_arith)
            requires
                gaps >= 1,
        ;
    } else {
        assert(span == 0);
    }
}

/// Whether no expression reads layout or text units.
pub open spec fn is_plain(exprs: Seq<Expr>, live: Seq<ExprId>) -> bool {
    forall|i: int|
        0 <= i < live.len() ==> {
            let at = (#[trigger] live[i]).0 as int;
            !after_layout(exprs)[at] && !of_units(exprs)[at]
        }
}

fn reads_only_frames(exprs: &Vec<Expr>, live: &Vec<ExprId>) -> (r: bool)
    requires
        all_known(exprs@, live@),
    ensures
        r == is_plain(exprs@, live@),
{
    let post = post_layout_dependent(exprs);
    let unit = unit_dependent(exprs);
    proof {
        flags_are(exprs@, |e: Expr| reads_layout(e), post@);
        flags_are(exprs@, |e: Expr| reads_unit(e), unit@);
    }
    let mut i: usize = 0;
    while i < live.len()
        invariant
            i <= live@.len(),
            all_known(exprs@, live@),
            post@ == after_layout(exprs@),
            unit@ == of_units(exprs@),
            post@.len() == exprs@.len(),
            unit@.len() == exprs@.len(),
            forall|k: int|
                0 <= k < i ==> {
                    let at = (#[trigger] live@[k]).0 as int;
                    !after_layout(exprs@)[at] && !of_units(exprs@)[at]
                },
        decreases live@.len() - i,
    {
        assert(live@[i as int].0 < exprs@.len());
        let at: usize = live[i].0 as usize;
        if post[at] || unit[at] {
            return false;
        }
        i = i + 1;
    }
    true
}

/// Whether velocities are the host's speeds between two values.
pub open spec fn speeds<S: Fn(Scalar, Scalar) -> Scalar>(
    speed: S,
    before: Seq<Scalar>,
    after: Seq<Scalar>,
    r: Seq<Scalar>,
) -> bool {
    &&& r.len() == (if before.len() <= after.len() {
        before.len()
    } else {
        after.len()
    })
    &&& forall|i: int|
        0 <= i < r.len() ==> call_ensures(speed, (before[i], after[i]), #[trigger] r[i])
}

fn velocities<S: Fn(Scalar, Scalar) -> Scalar>(
    speed: &S,
    before: &Vec<Scalar>,
    after: &Vec<Scalar>,
) -> (r: Vec<Scalar>)
    requires
        forall|a: Scalar, b: Scalar| call_requires(*speed, (a, b)),
    ensures
        speeds(*speed, before@, after@, r@),
{
    let n: usize = if before.len() <= after.len() {
        before.len()
    } else {
        after.len()
    };
    let mut out: Vec<Scalar> = Vec::new();
    let mut i: usize = 0;
    while i < n
        invariant
            forall|a: Scalar, b: Scalar| call_requires(*speed, (a, b)),
            n <= before@.len(),
            n <= after@.len(),
            i <= n,
            out@.len() == i,
            forall|k: int|
                0 <= k < out@.len() ==> call_ensures(
                    *speed,
                    (before@[k], after@[k]),
                    #[trigger] out@[k],
                ),
        decreases n - i,
    {
        out.push(speed(before[i], after[i]));
        i = i + 1;
    }
    out
}

/// A point by its contents.
pub struct PointSeen {
    pub frame: u32,
    pub value: Seq<Scalar>,
    pub velocity: Option<Seq<Scalar>>,
    pub boundary: Option<Boundary>,
}

pub open spec fn point_seen(p: PropertyPoint) -> PointSeen {
    PointSeen {
        frame: p.frame,
        value: p.value@,
        velocity: match p.velocity {
            Some(v) => Some(v@),
            None => None,
        },
        boundary: p.boundary,
    }
}

pub open spec fn point_told(r: Result<PropertyPoint, String>) -> Result<PointSeen, Seq<char>> {
    match r {
        Ok(p) => Ok(point_seen(p)),
        Err(t) => Err(t@),
    }
}

/// Whether `r` is a point between two other instants: a velocity needs the same branches in all.
pub open spec fn moved<S: Fn(Scalar, Scalar) -> Scalar>(
    speed: S,
    frame: u32,
    now: (Seq<Scalar>, Seq<Branch>),
    before: (Seq<Scalar>, Seq<Branch>),
    after: (Seq<Scalar>, Seq<Branch>),
    r: Result<PointSeen, Seq<char>>,
) -> bool {
    r matches Ok(p) && p.frame == frame && p.value == now.0 && if before.1 != now.1 || after.1
        != now.1 {
        p.velocity is None && p.boundary == Some(Boundary::Branch)
    } else {
        p.boundary is None && (p.velocity matches Some(v) && speeds(speed, before.0, after.0, v))
    }
}

/// Whether a frame has no neighbor on one side.
pub open spec fn at_end(frame: u32, duration: u32) -> bool {
    frame == 0 || frame + 1 == duration
}

/// Whether `r` is a sample at a frame.
pub open spec fn point_given<
    K: Fn(&Kernel) -> Result<MotionValue, KernelError>,
    T: Fn(&MotionValue) -> String,
    M: Fn(u32) -> Option<Moment>,
    D: Fn(Angle) -> Scalar,
    A: Fn(&String) -> Option<Angle>,
    G: Fn(&String) -> Option<Length2>,
    S: Fn(Scalar, Scalar) -> Scalar,
>(
    host: K,
    tokens: T,
    h: SampleHost<M, D, A, G, S>,
    exprs: Seq<Expr>,
    props: &ResolvedProps,
    size: (Scalar, Scalar),
    probe: Probe,
    duration: u32,
    frame: u32,
    r: Result<PointSeen, Seq<char>>,
) -> bool {
    exists|now: Result<(Seq<Scalar>, Seq<Branch>), Seq<char>>| #[trigger]
        instant_given(host, tokens, h, exprs, props, size, probe, frame, now) && match now {
            Err(t) => r == Err::<PointSeen, Seq<char>>(t),
            Ok(now) => if at_end(frame, duration) || steps(exprs, probe.live@) {
                r == Ok::<PointSeen, Seq<char>>(
                    PointSeen {
                        frame,
                        value: now.0,
                        velocity: None,
                        boundary: if steps(exprs, probe.live@) {
                            Some(Boundary::Discrete)
                        } else {
                            None
                        },
                    },
                )
            } else {
                exists|before: Result<(Seq<Scalar>, Seq<Branch>), Seq<char>>| #[trigger]
                    instant_given(
                        host,
                        tokens,
                        h,
                        exprs,
                        props,
                        size,
                        probe,
                        (frame - 1) as u32,
                        before,
                    ) && match before {
                        Err(t) => r == Err::<PointSeen, Seq<char>>(t),
                        Ok(before) => exists|
                            after: Result<(Seq<Scalar>, Seq<Branch>), Seq<char>>,
                        | #[trigger]
                            instant_given(
                                host,
                                tokens,
                                h,
                                exprs,
                                props,
                                size,
                                probe,
                                (frame + 1) as u32,
                                after,
                            ) && match after {
                                Err(t) => r == Err::<PointSeen, Seq<char>>(t),
                                Ok(after) => moved(*h.speed, frame, now, before, after, r),
                            },
                    }
            },
        }
}

fn same_branches(a: &Vec<Branch>, b: &Vec<Branch>) -> (r: bool)
    ensures
        r == (a@ == b@),
{
    if a.len() != b.len() {
        return false;
    }
    let mut i: usize = 0;
    while i < a.len()
        invariant
            a@.len() == b@.len(),
            i <= a@.len(),
            forall|k: int| 0 <= k < i ==> a@[k] == b@[k],
        decreases a@.len() - i,
    {
        if a[i] != b[i] {
            return false;
        }
        i = i + 1;
    }
    assert(a@ =~= b@);
    true
}

fn sample_point<
    K: Fn(&Kernel) -> Result<MotionValue, KernelError>,
    T: Fn(&MotionValue) -> String,
    M: Fn(u32) -> Option<Moment>,
    D: Fn(Angle) -> Scalar,
    A: Fn(&String) -> Option<Angle>,
    G: Fn(&String) -> Option<Length2>,
    S: Fn(Scalar, Scalar) -> Scalar,
>(
    host: &K,
    tokens: &T,
    h: &SampleHost<M, D, A, G, S>,
    exprs: &Vec<Expr>,
    props: &ResolvedProps,
    size: (Scalar, Scalar),
    probe: &Probe,
    duration: u32,
    frame: u32,
) -> (r: Result<PropertyPoint, String>)
    requires
        forall|k: Kernel| call_requires(*host, (&k,)),
        forall|v: MotionValue| call_requires(*tokens, (&v,)),
        tools_ready(*h),
        all_known(exprs@, probe.live@),
        frame < duration,
    ensures
        point_given(
            *host,
            *tokens,
            *h,
            exprs@,
            props,
            size,
            *probe,
            duration,
            frame,
            point_told(r),
        ),
{
    let now = instant(host, tokens, h, exprs, props, size, probe, frame);
    let ghost told = instant_seen(now);
    assert(instant_given(*host, *tokens, *h, exprs@, props, size, *probe, frame, told));
    let now = match now {
        Ok(v) => v,
        Err(t) => {
            return Err(t);
        },
    };
    let discrete = any_steps(exprs, probe.live);
    if frame == 0 || frame + 1 == duration || discrete {
        return Ok(
            PropertyPoint {
                frame,
                value: now.value,
                velocity: None,
                boundary: if discrete {
                    Some(Boundary::Discrete)
                } else {
                    None
                },
            },
        );
    }
    let before = instant(host, tokens, h, exprs, props, size, probe, frame - 1);
    let ghost told_before = instant_seen(before);
    assert(instant_given(
        *host,
        *tokens,
        *h,
        exprs@,
        props,
        size,
        *probe,
        (frame - 1) as u32,
        told_before,
    ));
    let before = match before {
        Ok(v) => v,
        Err(t) => {
            return Err(t);
        },
    };
    let after = instant(host, tokens, h, exprs, props, size, probe, frame + 1);
    let ghost told_after = instant_seen(after);
    assert(instant_given(
        *host,
        *tokens,
        *h,
        exprs@,
        props,
        size,
        *probe,
        (frame + 1) as u32,
        told_after,
    ));
    let after = match after {
        Ok(v) => v,
        Err(t) => {
            return Err(t);
        },
    };
    if !same_branches(&before.branches, &now.branches) || !same_branches(
        &after.branches,
        &now.branches,
    ) {
        let r: Result<PropertyPoint, String> = Ok(
            PropertyPoint {
                frame,
                value: now.value,
                velocity: None,
                boundary: Some(Boundary::Branch),
            },
        );
        assert(moved(
            *h.speed,
            frame,
            told->Ok_0,
            told_before->Ok_0,
            told_after->Ok_0,
            point_told(r),
        ));
        return r;
    }
    let velocity = velocities(h.speed, &before.value, &after.value);
    let r: Result<PropertyPoint, String> = Ok(
        PropertyPoint { frame, value: now.value, velocity: Some(velocity), boundary: None },
    );
    assert(moved(
        *h.speed,
        frame,
        told->Ok_0,
        told_before->Ok_0,
        told_after->Ok_0,
        point_told(r),
    ));
    r
}

/// Whether these are the samples at the first frames.
pub open spec fn points_given<
    K: Fn(&Kernel) -> Result<MotionValue, KernelError>,
    T: Fn(&MotionValue) -> String,
    M: Fn(u32) -> Option<Moment>,
    D: Fn(Angle) -> Scalar,
    A: Fn(&String) -> Option<Angle>,
    G: Fn(&String) -> Option<Length2>,
    S: Fn(Scalar, Scalar) -> Scalar,
>(
    host: K,
    tokens: T,
    h: SampleHost<M, D, A, G, S>,
    exprs: Seq<Expr>,
    props: &ResolvedProps,
    size: (Scalar, Scalar),
    probe: Probe,
    duration: u32,
    frames: Seq<u32>,
    points: Seq<PropertyPoint>,
) -> bool {
    points.len() <= frames.len() && forall|i: int|
        0 <= i < points.len() ==> point_given(
            host,
            tokens,
            h,
            exprs,
            props,
            size,
            probe,
            duration,
            frames[i],
            Ok(point_seen(#[trigger] points[i])),
        )
}

/// Whether a channel holds the samples of a property: all of them, or none and the reason of the first
/// that failed.
pub open spec fn channel_given<
    K: Fn(&Kernel) -> Result<MotionValue, KernelError>,
    T: Fn(&MotionValue) -> String,
    M: Fn(u32) -> Option<Moment>,
    D: Fn(Angle) -> Scalar,
    A: Fn(&String) -> Option<Angle>,
    G: Fn(&String) -> Option<Length2>,
    S: Fn(Scalar, Scalar) -> Scalar,
>(
    host: K,
    tokens: T,
    h: SampleHost<M, D, A, G, S>,
    exprs: Seq<Expr>,
    props: &ResolvedProps,
    size: (Scalar, Scalar),
    probe: Probe,
    duration: u32,
    frames: Seq<u32>,
    r: PropertyChannel,
) -> bool {
    r.property == probe.property && if probe.live@.len() > MAX_LIVE || !is_plain(
        exprs,
        probe.live@,
    ) {
        r.samples@.len() == 0 && (r.unavailable matches Some(t) && t@
            == "Requires layout/per-unit context or exceeds the inspection budget"@)
    } else {
        match r.unavailable {
            None => r.samples@.len() == frames.len() && points_given(
                host,
                tokens,
                h,
                exprs,
                props,
                size,
                probe,
                duration,
                frames,
                r.samples@,
            ),
            Some(t) => r.samples@.len() == 0 && exists|points: Seq<PropertyPoint>| #[trigger]
                points_given(
                    host,
                    tokens,
                    h,
                    exprs,
                    props,
                    size,
                    probe,
                    duration,
                    frames,
                    points,
                ) && points.len() < frames.len() && point_given(
                    host,
                    tokens,
                    h,
                    exprs,
                    props,
                    size,
                    probe,
                    duration,
                    frames[points.len() as int],
                    Err(t@),
                ),
        }
    }
}

fn sample_channel<
    K: Fn(&Kernel) -> Result<MotionValue, KernelError>,
    T: Fn(&MotionValue) -> String,
    M: Fn(u32) -> Option<Moment>,
    D: Fn(Angle) -> Scalar,
    A: Fn(&String) -> Option<Angle>,
    G: Fn(&String) -> Option<Length2>,
    S: Fn(Scalar, Scalar) -> Scalar,
>(
    host: &K,
    tokens: &T,
    h: &SampleHost<M, D, A, G, S>,
    exprs: &Vec<Expr>,
    props: &ResolvedProps,
    size: (Scalar, Scalar),
    probe: &Probe,
    duration: u32,
    frames: &Vec<u32>,
) -> (r: PropertyChannel)
    requires
        forall|k: Kernel| call_requires(*host, (&k,)),
        forall|v: MotionValue| call_requires(*tokens, (&v,)),
        tools_ready(*h),
        all_known(exprs@, probe.live@),
        forall|i: int| 0 <= i < frames@.len() ==> (#[trigger] frames@[i]) < duration,
    ensures
        channel_given(
            *host,
            *tokens,
            *h,
            exprs@,
            props,
            size,
            *probe,
            duration,
            frames@,
            r,
        ),
{
    if probe.live.len() > MAX_LIVE || !reads_only_frames(exprs, probe.live) {
        return PropertyChannel {
            property: probe.property,
            samples: Vec::new(),
            unavailable: Some(
                "Requires layout/per-unit context or exceeds the inspection budget".to_owned(),
            ),
        };
    }
    let mut samples: Vec<PropertyPoint> = Vec::new();
    let mut i: usize = 0;
    while i < frames.len()
        invariant
            forall|k: Kernel| call_requires(*host, (&k,)),
            forall|v: MotionValue| call_requires(*tokens, (&v,)),
            tools_ready(*h),
            all_known(exprs@, probe.live@),
            forall|i: int| 0 <= i < frames@.len() ==> (#[trigger] frames@[i]) < duration,
            probe.live@.len() <= MAX_LIVE && is_plain(exprs@, probe.live@),
            i <= frames@.len(),
            samples@.len() == i,
            points_given(
                *host,
                *tokens,
                *h,
                exprs@,
                props,
                size,
                *probe,
                duration,
                frames@,
                samples@,
            ),
        decreases frames@.len() - i,
    {
        let ghost start = samples@;
        match sample_point(host, tokens, h, exprs, props, size, probe, duration, frames[i]) {
            Err(t) => {
                assert(points_given(
                    *host,
                    *tokens,
                    *h,
                    exprs@,
                    props,
                    size,
                    *probe,
                    duration,
                    frames@,
                    start,
                ));
                return PropertyChannel {
                    property: probe.property,
                    samples: Vec::new(),
                    unavailable: Some(t),
                };
            },
            Ok(p) => {
                samples.push(p);
                proof {
                    let now = samples@;
                    assert forall|k: int| 0 <= k < now.len() implies point_given(
                        *host,
                        *tokens,
                        *h,
                        exprs@,
                        props,
                        size,
                        *probe,
                        duration,
                        frames@[k],
                        Ok(point_seen(#[trigger] now[k])),
                    ) by {
                        if k < i {
                            assert(now[k] == start[k]);
                        }
                    }
                }
            },
        }
        i = i + 1;
    }
    PropertyChannel { property: probe.property, samples, unavailable: None }
}

/// Position of the last of the first `n` styles with a property.
pub open spec fn last_style(styles: Seq<StyleBinding>, property: Seq<char>, n: nat) -> Option<nat>
    decreases n,
{
    if n == 0 {
        None
    } else if styles[n - 1].property@ == property {
        Some((n - 1) as nat)
    } else {
        last_style(styles, property, (n - 1) as nat)
    }
}

fn find_style(node: &SceneNode, property: &str) -> (r: Option<usize>)
    ensures
        match r {
            Some(i) => i < node.styles@.len() && last_style(
                node.styles@,
                property@,
                node.styles@.len(),
            ) == Some(i as nat),
            None => last_style(node.styles@, property@, node.styles@.len()) is None,
        },
{
    let mut n: usize = node.styles.len();
    while n > 0
        invariant
            n <= node.styles@.len(),
            last_style(node.styles@, property@, node.styles@.len()) == last_style(
                node.styles@,
                property@,
                n as nat,
            ),
        decreases n,
    {
        if same_text(node.styles[n - 1].property.as_str(), property) {
            return Some(n - 1);
        }
        n = n - 1;
    }
    None
}

/// Whether `r` is the channel of a property of a node; nothing where no style sets it.
pub open spec fn property_given<
    K: Fn(&Kernel) -> Result<MotionValue, KernelError>,
    T: Fn(&MotionValue) -> String,
    M: Fn(u32) -> Option<Moment>,
    D: Fn(Angle) -> Scalar,
    A: Fn(&String) -> Option<Angle>,
    G: Fn(&String) -> Option<Length2>,
    S: Fn(Scalar, Scalar) -> Scalar,
>(
    host: K,
    tokens: T,
    h: SampleHost<M, D, A, G, S>,
    exprs: Seq<Expr>,
    node: SceneNode,
    props: &ResolvedProps,
    size: (Scalar, Scalar),
    duration: u32,
    frames: Seq<u32>,
    property: Sampled,
    r: Option<PropertyChannel>,
) -> bool {
    match last_style(node.styles@, property.name(), node.styles@.len()) {
        None => r is None,
        Some(i) => r matches Some(c) && exists|live: Vec<ExprId>|
            live@ == live_of(exprs, node.styles@[i as int].value) && #[trigger] channel_given(
                host,
                tokens,
                h,
                exprs,
                props,
                size,
                (Probe { property, binding: &node.styles@[i as int].value, live: &live }),
                duration,
                frames,
                c,
            ),
    }
}

fn sample_property<
    K: Fn(&Kernel) -> Result<MotionValue, KernelError>,
    T: Fn(&MotionValue) -> String,
    M: Fn(u32) -> Option<Moment>,
    D: Fn(Angle) -> Scalar,
    A: Fn(&String) -> Option<Angle>,
    G: Fn(&String) -> Option<Length2>,
    S: Fn(Scalar, Scalar) -> Scalar,
>(
    host: &K,
    tokens: &T,
    h: &SampleHost<M, D, A, G, S>,
    exprs: &Vec<Expr>,
    node: &SceneNode,
    props: &ResolvedProps,
    size: (Scalar, Scalar),
    duration: u32,
    frames: &Vec<u32>,
    property: Sampled,
) -> (r: Option<PropertyChannel>)
    requires
        forall|k: Kernel| call_requires(*host, (&k,)),
        forall|v: MotionValue| call_requires(*tokens, (&v,)),
        tools_ready(*h),
        exprs@.len() <= u32::MAX,
        forall|i: int| 0 <= i < frames@.len() ==> (#[trigger] frames@[i]) < duration,
    ensures
        property_given(
            *host,
            *tokens,
            *h,
            exprs@,
            *node,
            props,
            size,
            duration,
            frames@,
            property,
            r,
        ),
{
    match find_style(node, property.property()) {
        None => None,
        Some(i) => {
            let binding = &node.styles[i].value;
            let live = live_exprs(exprs, binding);
            let probe = Probe { property, binding, live: &live };
            let c = sample_channel(host, tokens, h, exprs, props, size, &probe, duration, frames);
            assert(live@ == live_of(exprs@, node.styles@[i as int].value) && channel_given(
                *host,
                *tokens,
                *h,
                exprs@,
                props,
                size,
                (Probe { property, binding: &node.styles@[i as int].value, live: &live }),
                duration,
                frames@,
                c,
            ));
            Some(c)
        },
    }
}

/// The first node from `i` on with a key.
pub open spec fn node_from(nodes: Seq<SceneNode>, key: Seq<char>, i: int) -> Option<int>
    decreases nodes.len() - i,
{
    if i < 0 || i >= nodes.len() {
        None
    } else if nodes[i].key@ == key {
        Some(i)
    } else {
        node_from(nodes, key, i + 1)
    }
}

fn find_node(nodes: &Vec<SceneNode>, key: &str) -> (r: Option<usize>)
    ensures
        match r {
            Some(i) => i < nodes@.len() && node_from(nodes@, key@, 0) == Some(i as int),
            None => node_from(nodes@, key@, 0) is None,
        },
{
    let mut i: usize = 0;
    while i < nodes.len()
        invariant
            i <= nodes@.len(),
            node_from(nodes@, key@, 0) == node_from(nodes@, key@, i as int),
        decreases nodes@.len() - i,
    {
        if same_text(nodes[i].key.as_str(), key) {
            return Some(i);
        }
        i = i + 1;
    }
    None
}

/// The properties that are sampled, in order.
pub open spec fn all_sampled() -> Seq<Sampled> {
    seq![Sampled::Opacity, Sampled::Translate, Sampled::Scale, Sampled::Rotate]
}

/// The channels that are there among the first `n`.
pub open spec fn there(list: Seq<Option<PropertyChannel>>, n: nat) -> Seq<PropertyChannel>
    decreases n,
{
    if n == 0 {
        Seq::empty()
    } else {
        let rest = there(list, (n - 1) as nat);
        match list[n - 1] {
            Some(c) => rest.push(c),
            None => rest,
        }
    }
}

proof fn there_prefix(list: Seq<Option<PropertyChannel>>, next: Option<PropertyChannel>, n: nat)
    requires
        n <= list.len(),
    ensures
        there(list.push(next), n) == there(list, n),
    decreases n,
{
    if n > 0 {
        there_prefix(list, next, (n - 1) as nat);
    }
}

/// Whether the first properties have these channels.
pub open spec fn channels_given<
    K: Fn(&Kernel) -> Result<MotionValue, KernelError>,
    T: Fn(&MotionValue) -> String,
    M: Fn(u32) -> Option<Moment>,
    D: Fn(Angle) -> Scalar,
    A: Fn(&String) -> Option<Angle>,
    G: Fn(&String) -> Option<Length2>,
    S: Fn(Scalar, Scalar) -> Scalar,
>(
    host: K,
    tokens: T,
    h: SampleHost<M, D, A, G, S>,
    exprs: Seq<Expr>,
    node: SceneNode,
    props: &ResolvedProps,
    size: (Scalar, Scalar),
    duration: u32,
    frames: Seq<u32>,
    list: Seq<Option<PropertyChannel>>,
) -> bool {
    list.len() <= 4 && forall|i: int|
        0 <= i < list.len() ==> property_given(
            host,
            tokens,
            h,
            exprs,
            node,
            props,
            size,
            duration,
            frames,
            all_sampled()[i],
            #[trigger] list[i],
        )
}

/// Whether props are those of a request.
pub open spec fn props_told(a: SceneArtifact, q: PropertySampleRequest, r: Result<ResolvedProps, EvalError>) -> bool {
    match r {
        Ok(p) => crate::props::resolution(a.controls, q.props@) == Ok::<
            Seq<(Seq<char>, crate::value::Value)>,
            crate::faults::Fault,
        >(crate::props::named_values(p.values@)),
        Err(e) => crate::props::resolution(a.controls, q.props@) == Err::<
            Seq<(Seq<char>, crate::value::Value)>,
            crate::faults::Fault,
        >(e@),
    }
}

/// The size of the viewport of a request.
pub open spec fn size_of(q: PropertySampleRequest) -> (Scalar, Scalar) {
    (
        Scalar { bits: integer_bits(q.width as nat) as u64 },
        Scalar { bits: integer_bits(q.height as nat) as u64 },
    )
}

/// Whether `r` is the answer to a request on a node: one channel for each sampled property that a
/// style of the node sets.
pub open spec fn samples_given<
    K: Fn(&Kernel) -> Result<MotionValue, KernelError>,
    T: Fn(&MotionValue) -> String,
    M: Fn(u32) -> Option<Moment>,
    D: Fn(Angle) -> Scalar,
    A: Fn(&String) -> Option<Angle>,
    G: Fn(&String) -> Option<Length2>,
    S: Fn(Scalar, Scalar) -> Scalar,
>(
    host: K,
    tokens: T,
    h: SampleHost<M, D, A, G, S>,
    a: SceneArtifact,
    q: PropertySampleRequest,
    at: int,
    props: &ResolvedProps,
    list: Seq<Option<PropertyChannel>>,
    r: PropertySamples,
) -> bool {
    &&& r.node@ == a.nodes@[at].key@
    &&& r.frames@.len() == frame_count(q)
    &&& forall|i: int| 0 <= i < r.frames@.len() ==> #[trigger] r.frames@[i] == frame_at(q, i)
    &&& list.len() == 4
    &&& channels_given(
        host,
        tokens,
        h,
        a.exprs@,
        a.nodes@[at],
        props,
        size_of(q),
        q.duration_frames,
        r.frames@,
        list,
    )
    &&& r.channels@ == there(list, 4)
    &&& r.phase_boundaries@ == seq![q.enter_frames, (q.enter_frames + q.hold_frames) as u32]
}

/// Whether `r` is the answer to a request on a node.
pub open spec fn some_samples<
    K: Fn(&Kernel) -> Result<MotionValue, KernelError>,
    T: Fn(&MotionValue) -> String,
    M: Fn(u32) -> Option<Moment>,
    D: Fn(Angle) -> Scalar,
    A: Fn(&String) -> Option<Angle>,
    G: Fn(&String) -> Option<Length2>,
    S: Fn(Scalar, Scalar) -> Scalar,
>(
    host: K,
    tokens: T,
    h: SampleHost<M, D, A, G, S>,
    a: SceneArtifact,
    q: PropertySampleRequest,
    at: int,
    props: &ResolvedProps,
    r: PropertySamples,
) -> bool {
    exists|list: Seq<Option<PropertyChannel>>| #[trigger]
        samples_given(host, tokens, h, a, q, at, props, list, r)
}

/// Whether `r` answers a request on a node, with its props resolved.
pub open spec fn answer_given<
    K: Fn(&Kernel) -> Result<MotionValue, KernelError>,
    T: Fn(&MotionValue) -> String,
    M: Fn(u32) -> Option<Moment>,
    D: Fn(Angle) -> Scalar,
    A: Fn(&String) -> Option<Angle>,
    G: Fn(&String) -> Option<Length2>,
    S: Fn(Scalar, Scalar) -> Scalar,
>(
    host: K,
    tokens: T,
    h: SampleHost<M, D, A, G, S>,
    a: SceneArtifact,
    q: PropertySampleRequest,
    at: int,
    props: Result<ResolvedProps, EvalError>,
    uncued: Option<String>,
    r: Result<PropertySamples, String>,
) -> bool {
    match props {
        Err(e) => r matches Err(t) && t@ == e.text(),
        Ok(p) => match uncued {
            Some(t) => r == Err::<PropertySamples, String>(t),
            None => match r {
                Ok(s) => some_samples(host, tokens, h, a, q, at, &p, s),
                Err(_) => false,
            },
        },
    }
}

proof fn answered<
    K: Fn(&Kernel) -> Result<MotionValue, KernelError>,
    T: Fn(&MotionValue) -> String,
    M: Fn(u32) -> Option<Moment>,
    D: Fn(Angle) -> Scalar,
    A: Fn(&String) -> Option<Angle>,
    G: Fn(&String) -> Option<Length2>,
    S: Fn(Scalar, Scalar) -> Scalar,
>(
    host: K,
    tokens: T,
    h: SampleHost<M, D, A, G, S>,
    a: SceneArtifact,
    q: PropertySampleRequest,
    at: int,
    props: ResolvedProps,
    list: Seq<Option<PropertyChannel>>,
    s: PropertySamples,
)
    requires
        samples_given(host, tokens, h, a, q, at, &props, list, s),
    ensures
        answer_given(host, tokens, h, a, q, at, Ok(props), None, Ok(s)),
{
    assert(some_samples(host, tokens, h, a, q, at, &props, s));
}

/// Samples the animated properties of a node. `invalid` and `uncued` are the host's complaints about
/// the scene and about the cues of the request.
pub fn sample_properties<
    K: Fn(&Kernel) -> Result<MotionValue, KernelError>,
    T: Fn(&MotionValue) -> String,
    M: Fn(u32) -> Option<Moment>,
    D: Fn(Angle) -> Scalar,
    A: Fn(&String) -> Option<Angle>,
    G: Fn(&String) -> Option<Length2>,
    S: Fn(Scalar, Scalar) -> Scalar,
>(
    host: &K,
    tokens: &T,
    h: &SampleHost<M, D, A, G, S>,
    artifact: &SceneArtifact,
    request: &PropertySampleRequest,
    invalid: Option<String>,
    uncued: Option<String>,
) -> (r: Result<PropertySamples, String>)
    requires
        forall|k: Kernel| call_requires(*host, (&k,)),
        forall|v: MotionValue| call_requires(*tokens, (&v,)),
        tools_ready(*h),
        artifact.exprs@.len() <= u32::MAX,
        request.enter_frames + request.hold_frames <= u32::MAX,
    ensures
        match invalid {
            Some(t) => r == Err::<PropertySamples, String>(t),
            None => if !is_valid(*request) {
                r matches Err(t) && t@
                    == "invalid sample range, viewport or point limit (2..=240)"@
            } else {
                match node_from(artifact.nodes@, request.node@, 0) {
                    None => r matches Err(t) && t@ == "unknown Motion node"@,
                    Some(at) => exists|props: Result<ResolvedProps, EvalError>| #[trigger]
                        props_told(*artifact, *request, props) && answer_given(
                            *host,
                            *tokens,
                            *h,
                            *artifact,
                            *request,
                            at,
                            props,
                            uncued,
                            r,
                        ),
                }
            },
        },
{
    if let Some(t) = invalid {
        return Err(t);
    }
    if request.duration_frames == 0 || request.start_frame > request.end_frame || request.end_frame
        >= request.duration_frames || request.max_points < 2 || request.max_points > MAX_POINTS
        || request.width == 0 || request.height == 0 {
        return Err("invalid sample range, viewport or point limit (2..=240)".to_owned());
    }
    let at = match find_node(&artifact.nodes, request.node.as_str()) {
        Some(i) => i,
        None => {
            return Err("unknown Motion node".to_owned());
        },
    };
    let node = &artifact.nodes[at];
    let resolved = resolve_props(&artifact.controls, &request.props);
    assert(props_told(*artifact, *request, resolved));
    let props = match &resolved {
        Ok(p) => p,
        Err(e) => {
            return Err(e.message());
        },
    };
    if let Some(t) = uncued {
        return Err(t);
    }
    let size = (Scalar::from_u32(request.width), Scalar::from_u32(request.height));
    assert(size == size_of(*request));
    let frames = sample_frames(request);
    let mut kinds: Vec<Sampled> = Vec::new();
    kinds.push(Sampled::Opacity);
    kinds.push(Sampled::Translate);
    kinds.push(Sampled::Scale);
    kinds.push(Sampled::Rotate);
    assert(kinds@ =~= all_sampled());
    let ghost mut list: Seq<Option<PropertyChannel>> = Seq::empty();
    let mut channels: Vec<PropertyChannel> = Vec::new();
    let mut i: usize = 0;
    assert(channels@ =~= there(list, 0));
    while i < 4
        invariant
            forall|k: Kernel| call_requires(*host, (&k,)),
            forall|v: MotionValue| call_requires(*tokens, (&v,)),
            tools_ready(*h),
            artifact.exprs@.len() <= u32::MAX,
            forall|k: int|
                0 <= k < frames@.len() ==> (#[trigger] frames@[k]) < request.duration_frames,
            kinds@ == all_sampled(),
            *node == artifact.nodes@[at as int],
            i <= 4,
            list.len() == i,
            channels_given(
                *host,
                *tokens,
                *h,
                artifact.exprs@,
                *node,
                props,
                size,
                request.duration_frames,
                frames@,
                list,
            ),
            channels@ == there(list, i as nat),
        decreases 4 - i,
    {
        let next = sample_property(
            host,
            tokens,
            h,
            &artifact.exprs,
            node,
            props,
            size,
            request.duration_frames,
            &frames,
            kinds[i],
        );
        proof {
            there_prefix(list, next, i as nat);
            let now = list.push(next);
            assert forall|k: int| 0 <= k < now.len() implies property_given(
                *host,
                *tokens,
                *h,
                artifact.exprs@,
                *node,
                props,
                size,
                request.duration_frames,
                frames@,
                all_sampled()[k],
                #[trigger] now[k],
            ) by {
                if k < i {
                    assert(now[k] == list[k]);
                }
            }
            list = now;
        }
        if let Some(c) = next {
            channels.push(c);
        }
        i = i + 1;
    }
    let s = PropertySamples {
        node: node.key.clone(),
        channels,
        frames,
        phase_boundaries: phase_boundaries(request.enter_frames, request.hold_frames),
    };
    proof {
        answered(*host, *tokens, *h, *artifact, *request, at as int, *props, list, s);
    }
    Ok(s)
}

} // verus!
