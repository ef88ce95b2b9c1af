//! Samples of a property: which numbers a value has, which branch an expression is on, where velocity is
//! defined, and which style is sampled.

use vstd::prelude::*;

use crate::artifact::{SceneNode, StyleBinding};
use crate::eval::{Kernel, KernelError};
use crate::expr::{Expr, ExprId, InterpolateStop, MathBinaryOp, MathUnaryOp};
use crate::inspect::{
    at_end, is_valid, last_style, moved, node_from, point_given, there, Boundary, PointSeen,
    PropertyChannel, PropertySampleRequest,
};
use crate::instants::{
    branch_of, branches_of, instant_given, is_step, numeric_given, segment_from, steps, Branch, Moment,
    Probe, SampleHost, Sampled,
};
use crate::eval::ResolvedProps;
use crate::scalar::Scalar;
use crate::value::{Angle, Length2, LengthUnit, MotionValue};

verus! {

/// A request names frames of the scene, in order, and asks for 2 to 240 points in a viewport with an area.
pub proof fn requests_name_frames_of_the_scene(q: PropertySampleRequest)
    ensures
        is_valid(q) <==> {
            &&& q.start_frame <= q.end_frame
            &&& q.end_frame < q.duration_frames
            &&& 2 <= q.max_points <= 240
            &&& q.width > 0
            &&& q.height > 0
        },
{
}

/// Opacity is a number; scale a number or two; translation two numbers in pixels, y behind x.
pub proof fn values_have_their_numbers<
    M: Fn(u32) -> Option<Moment>,
    D: Fn(Angle) -> Scalar,
    A: Fn(&String) -> Option<Angle>,
    G: Fn(&String) -> Option<Length2>,
    S: Fn(Scalar, Scalar) -> Scalar,
>(
    h: SampleHost<M, D, A, G, S>,
    property: Sampled,
    v: MotionValue,
    r: Option<Seq<Scalar>>,
)
    requires
        numeric_given(h, property, v, r),
        !(v is Str),
    ensures
        match (property, v) {
            (Sampled::Opacity, MotionValue::Number(x)) => r == Some(seq![x]),
            (Sampled::Scale, MotionValue::Number(x)) => r == Some(seq![x]),
            (Sampled::Scale, MotionValue::Vec2(p)) => r == Some(seq![p.x, p.y]),
            (Sampled::Translate, MotionValue::Point(p)) => r == Some(seq![p.x, p.y]),
            (Sampled::Translate, MotionValue::Length2(l)) => if l.x.unit == LengthUnit::Px && l.y.unit
                == LengthUnit::Px {
                r == Some(seq![l.x.value, l.y.value])
            } else {
                r is None
            },
            (Sampled::Rotate, MotionValue::Angle(a)) => r is Some && r->0.len() == 1 && call_ensures(
                *h.degrees,
                (a,),
                r->0[0],
            ),
            _ => r is None,
        },
{
}

/// Texts are read first: as an angle for a rotation, as two lengths for a translation, as nothing else.
pub proof fn texts_are_read_first<
    M: Fn(u32) -> Option<Moment>,
    D: Fn(Angle) -> Scalar,
    A: Fn(&String) -> Option<Angle>,
    G: Fn(&String) -> Option<Length2>,
    S: Fn(Scalar, Scalar) -> Scalar,
>(
    h: SampleHost<M, D, A, G, S>,
    s: String,
    x: Seq<Scalar>,
)
    ensures
        !numeric_given(h, Sampled::Opacity, MotionValue::Str(s), Some(x)),
        !numeric_given(h, Sampled::Scale, MotionValue::Str(s), Some(x)),
        numeric_given(h, Sampled::Rotate, MotionValue::Str(s), Some(x)) ==> x.len() == 1 && exists|
            a: Angle,
        | #[trigger]
            call_ensures(*h.parse_angle, (&s,), Some(a)) && call_ensures(*h.degrees, (a,), x[0]),
        numeric_given(h, Sampled::Translate, MotionValue::Str(s), Some(x)) ==> exists|l: Length2| #[trigger]
            call_ensures(*h.parse_lengths, (&s,), Some(l)) && x == seq![l.x.value, l.y.value]
                && l.x.unit == LengthUnit::Px && l.y.unit == LengthUnit::Px,
{
    if numeric_given(h, Sampled::Rotate, MotionValue::Str(s), Some(x)) {
        let a = choose|a: Option<Angle>| #[trigger]
            call_ensures(*h.parse_angle, (&s,), a) && match a {
                Some(a) => crate::instants::turned(*h.degrees, a, Some(x)),
                None => false,
            };
        assert(call_ensures(*h.parse_angle, (&s,), Some(a->0)));
    }
    if numeric_given(h, Sampled::Translate, MotionValue::Str(s), Some(x)) {
        let l = choose|l: Option<Length2>| #[trigger]
            call_ensures(*h.parse_lengths, (&s,), l) && match l {
                Some(l) => Some(x) == crate::instants::pixels(l),
                None => false,
            };
        assert(call_ensures(*h.parse_lengths, (&s,), Some(l->0)));
    }
}

/// The segment of an input is the first stop that does not lie at or before it.
pub proof fn segments_end_behind_their_input(stops: Seq<InterpolateStop>, x: Scalar, i: int)
    requires
        0 <= i <= stops.len(),
    ensures
        i <= segment_from(stops, x, i) <= stops.len(),
        forall|j: int| i <= j < segment_from(stops, x, i) ==> (#[trigger] stops[j]).input.le_spec(x),
        segment_from(stops, x, i) < stops.len() ==> !stops[segment_from(stops, x, i)].input.le_spec(x),
    decreases stops.len() - i,
{
    if i < stops.len() && stops[i].input.le_spec(x) {
        segments_end_behind_their_input(stops, x, i + 1);
    }
}

/// A choice is on the branch of its condition, an interpolation on the segment of its input, and nothing
/// else branches.
pub proof fn choices_and_interpolations_branch(e: Expr, values: Seq<Option<MotionValue>>)
    ensures
        match e {
            Expr::Select { condition, .. } => {
                let at = condition.0 as int;
                let known = at < values.len() && values[at] is Some && values[at]->0 is Bool;
                branch_of(e, values) == Some(
                    Branch::Condition(
                        if known {
                            Some(values[at]->0->Bool_0)
                        } else {
                            None
                        },
                    ),
                )
            },
            Expr::Interpolate { input, stops, .. } => {
                let at = input.0 as int;
                let known = at < values.len() && values[at] is Some && values[at]->0 is Number;
                branch_of(e, values) == if known {
                    Some(Branch::Segment(segment_from(stops@, values[at]->0->Number_0, 0) as usize))
                } else {
                    None
                }
            },
            _ => branch_of(e, values) is None,
        },
{
}

/// The branches of live expressions are kept in their order.
pub proof fn branches_keep_their_order(
    exprs: Seq<Expr>,
    live: Seq<ExprId>,
    values: Seq<Option<MotionValue>>,
    n: nat,
)
    requires
        n < live.len(),
    ensures
        branches_of(exprs, live, values, 0).len() == 0,
        match branch_of(exprs[live[n as int].0 as int], values) {
            Some(b) => branches_of(exprs, live, values, n + 1) == branches_of(
                exprs,
                live,
                values,
                n,
            ).push(b),
            None => branches_of(exprs, live, values, n + 1) == branches_of(exprs, live, values, n),
        },
{
}

/// Rounding, remainders, trajectories and templates move in steps; nothing else does by itself.
pub proof fn rounding_moves_in_steps(e: Expr)
    ensures
        is_step(e) <==> match e {
            Expr::MathUnary { op, .. } => match op {
                MathUnaryOp::Floor => true,
                MathUnaryOp::Ceil => true,
                MathUnaryOp::Round => true,
                MathUnaryOp::Trunc => true,
                MathUnaryOp::Fract => true,
                _ => false,
            },
            Expr::MathBinary { op, .. } => match op {
                MathBinaryOp::Mod => true,
                MathBinaryOp::Remainder => true,
                _ => false,
            },
            Expr::PathTrajectory { .. } => true,
            Expr::Template { .. } => true,
            _ => false,
        },
{
}

/// Between two frames on the same branches velocity is the speed from the one before to the one after, in
/// every number; across branches there is none.
pub proof fn velocity_is_a_central_difference<S: Fn(Scalar, Scalar) -> Scalar>(
    speed: S,
    frame: u32,
    now: Seq<Scalar>,
    before: Seq<Scalar>,
    after: Seq<Scalar>,
    on: Seq<Branch>,
    was: Seq<Branch>,
    will: Seq<Branch>,
    p: PointSeen,
)
    requires
        moved(speed, frame, (now, on), (before, was), (after, will), Ok(p)),
        before.len() == after.len(),
    ensures
        p.frame == frame,
        p.value == now,
        was == on && will == on ==> p.boundary is None && p.velocity is Some && p.velocity->0.len()
            == before.len(),
        was == on && will == on ==> forall|i: int|
            0 <= i < before.len() ==> call_ensures(
                speed,
                (before[i], after[i]),
                #[trigger] p.velocity->0[i],
            ),
        was != on || will != on ==> p.velocity is None && p.boundary == Some(Boundary::Branch),
{
}

/// The first and the last frame of a scene have no neighbor on one side, and only they.
pub proof fn ends_have_one_neighbor(frame: u32, duration: u32)
    requires
        frame < duration,
    ensures
        at_end(frame, duration) <==> frame == 0 || frame == duration - 1,
{
}

/// At the ends of a scene, and of what moves in steps, there is no velocity; what moves in steps says so.
pub proof fn ends_and_steps_have_no_velocity<
    K: Fn(&Kernel) -> Result<MotionValue, KernelError>,
    T: Fn(&MotionValue) -> String,
    M: Fn(u32) -> Option<Moment>,
    D: Fn(Angle) -> Scalar,
    A: Fn(&String) -> Option<Angle>,
    G: Fn(&String) -> Option<Length2>,
    S: Fn(Scalar, Scalar) -> Scalar,
>(
    host: K,
    tokens: T,
    h: SampleHost<M, D, A, G, S>,
    exprs: Seq<Expr>,
    props: &ResolvedProps,
    size: (Scalar, Scalar),
    probe: Probe,
    duration: u32,
    frame: u32,
    p: PointSeen,
)
    requires
        point_given(host, tokens, h, exprs, props, size, probe, duration, frame, Ok(p)),
    ensures
        p.frame == frame,
        exists|on: Seq<Branch>| #[trigger]
            instant_given(host, tokens, h, exprs, props, size, probe, frame, Ok((p.value, on))),
        frame == 0 || frame + 1 == duration || steps(exprs, probe.live@) ==> p.velocity is None,
        steps(exprs, probe.live@) ==> p.boundary == Some(Boundary::Discrete),
        (frame == 0 || frame + 1 == duration) && !steps(exprs, probe.live@) ==> p.boundary is None,
{
    let now = choose|now: Result<(Seq<Scalar>, Seq<Branch>), Seq<char>>| #[trigger]
        instant_given(host, tokens, h, exprs, props, size, probe, frame, now) && (now is Ok ==> p.frame
            == frame && p.value == now->Ok_0.0) && now is Ok;
    let (value, on) = now->Ok_0;
    assert(instant_given(host, tokens, h, exprs, props, size, probe, frame, Ok((value, on))));
}

/// The last style of a property is sampled.
pub proof fn last_styles_are_sampled(styles: Seq<StyleBinding>, property: Seq<char>, k: int, n: nat)
    requires
        0 <= k < n <= styles.len(),
        styles[k].property@ == property,
        forall|j: int| k < j < n ==> (#[trigger] styles[j]).property@ != property,
    ensures
        last_style(styles, property, n) == Some(k as nat),
    decreases n,
{
    if k < n - 1 {
        last_styles_are_sampled(styles, property, k, (n - 1) as nat);
    }
}

/// Samples are taken of the first node with a key.
pub proof fn first_nodes_are_sampled(nodes: Seq<SceneNode>, key: Seq<char>, k: int, i: int)
    requires
        0 <= i <= k < nodes.len(),
        nodes[k].key@ == key,
        forall|j: int| i <= j < k ==> (#[trigger] nodes[j]).key@ != key,
    ensures
        node_from(nodes, key, i) == Some(k),
    decreases k - i,
{
    if i < k {
        first_nodes_are_sampled(nodes, key, k, i + 1);
    }
}

/// Channels are kept in the order of their properties, those that are not there left out.
pub proof fn channels_keep_their_order(list: Seq<Option<PropertyChannel>>, n: nat)
    requires
        n < list.len(),
    ensures
        there(list, 0).len() == 0,
        list[n as int] is None ==> there(list, n + 1) == there(list, n),
        list[n as int] is Some ==> there(list, n + 1) == there(list, n).push(list[n as int]->0),
{
}

/// Each property goes by its name.
pub proof fn properties_go_by_their_name()
    ensures
        Sampled::Opacity.name() == "opacity"@,
        Sampled::Translate.name() == "translate"@,
        Sampled::Scale.name() == "scale"@,
        Sampled::Rotate.name() == "rotate"@,
        crate::inspect::all_sampled() == seq![
            Sampled::Opacity,
            Sampled::Translate,
            Sampled::Scale,
            Sampled::Rotate,
        ],
{
}

} // verus!
