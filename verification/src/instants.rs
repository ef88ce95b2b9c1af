//! The value of an animated property at one instant, with the branches that it came through.

use vstd::prelude::*;

use crate::artifact::StyleValue;
use crate::eval::{CueSignal, EvalInputs, Kernel, KernelError, MotionContext, ResolvedProps};
use crate::expr::{Expr, ExprId, InterpolateStop, MathBinaryOp, MathUnaryOp};
use crate::faults::EvalError;
use crate::passes::{eval_slice, live_at, live_flags, slice_told};
use crate::scalar::Scalar;
use crate::table::Entry;
use crate::tracks::{reachable_exprs, reached};
use crate::value::{Angle, Length2, LengthUnit, MotionValue};

verus! {

/// A property that can be sampled.
#[derive(Clone, Copy, Debug, PartialEq, Eq, Structural)]
pub enum Sampled {
    Opacity,
    Translate,
    Scale,
    Rotate,
}

impl Sampled {
    pub open spec fn name(self) -> Seq<char> {
        match self {
            Sampled::Opacity => "opacity"@,
            Sampled::Translate => "translate"@,
            Sampled::Scale => "scale"@,
            Sampled::Rotate => "rotate"@,
        }
    }

    /// The name of the property.
    pub fn property(self) -> (r: &'static str)
        ensures
            r@ == self.name(),
    {
        match self {
            Sampled::Opacity => "opacity",
            Sampled::Translate => "translate",
            Sampled::Scale => "scale",
            Sampled::Rotate => "rotate",
        }
    }

    /// The unit of its samples.
    pub fn unit(self) -> (r: &'static str)
        ensures
            r@ == (match self {
                Sampled::Translate => "px"@,
                Sampled::Rotate => "deg"@,
                _ => "unit"@,
            }),
    {
        match self {
            Sampled::Translate => "px",
            Sampled::Rotate => "deg",
            _ => "unit",
        }
    }
}

/// What the host knows of time and numbers.
pub struct SampleHost<'a, M, D, A, G, S> {
    /// The context and the cue signals of a frame; nothing outside the scene.
    pub moment: &'a M,
    /// An angle in degrees.
    pub degrees: &'a D,
    /// An angle from its text.
    pub parse_angle: &'a A,
    /// Two lengths from their text.
    pub parse_lengths: &'a G,
    /// The speed between the values one frame before and one frame after.
    pub speed: &'a S,
}

/// The context and the cue signals of a frame.
pub struct Moment {
    pub ctx: MotionContext,
    pub signals: Vec<Entry<CueSignal>>,
}

pub open spec fn tools_ready<
    M: Fn(u32) -> Option<Moment>,
    D: Fn(Angle) -> Scalar,
    A: Fn(&String) -> Option<Angle>,
    G: Fn(&String) -> Option<Length2>,
    S: Fn(Scalar, Scalar) -> Scalar,
>(h: SampleHost<M, D, A, G, S>) -> bool {
    &&& forall|f: u32| call_requires(*h.moment, (f,))
    &&& forall|a: Angle| call_requires(*h.degrees, (a,))
    &&& forall|s: String| call_requires(*h.parse_angle, (&s,))
    &&& forall|s: String| call_requires(*h.parse_lengths, (&s,))
    &&& forall|a: Scalar, b: Scalar| call_requires(*h.speed, (a, b))
}

/// Two lengths in pixels.
pub open spec fn pixels(v: Length2) -> Option<Seq<Scalar>> {
    if v.x.unit == LengthUnit::Px && v.y.unit == LengthUnit::Px {
        Some(seq![v.x.value, v.y.value])
    } else {
        None
    }
}

/// Whether `r` is the degrees of an angle.
pub open spec fn turned<D: Fn(Angle) -> Scalar>(degrees: D, a: Angle, r: Option<Seq<Scalar>>) -> bool {
    exists|x: Scalar| #[trigger] call_ensures(degrees, (a,), x) && r == Some(seq![x])
}

/// Whether `r` is the numbers of a value of a property; nothing where it needs more than the scene.
pub open spec fn numeric_given<
    M: Fn(u32) -> Option<Moment>,
    D: Fn(Angle) -> Scalar,
    A: Fn(&String) -> Option<Angle>,
    G: Fn(&String) -> Option<Length2>,
    S: Fn(Scalar, Scalar) -> Scalar,
>(
    h: SampleHost<M, D, A, G, S>,
    property: Sampled,
    v: MotionValue,
    r: Option<Seq<Scalar>>,
) -> bool {
    match (property, v) {
        (Sampled::Opacity, MotionValue::Number(x)) => r == Some(seq![x]),
        (Sampled::Scale, MotionValue::Number(x)) => r == Some(seq![x]),
        (Sampled::Scale, MotionValue::Vec2(p)) => r == Some(seq![p.x, p.y]),
        (Sampled::Translate, MotionValue::Point(p)) => r == Some(seq![p.x, p.y]),
        (Sampled::Translate, MotionValue::Length2(l)) => r == pixels(l),
        (Sampled::Rotate, MotionValue::Angle(a)) => turned(*h.degrees, a, r),
        (Sampled::Rotate, MotionValue::Str(s)) => exists|a: Option<Angle>| #[trigger]
            call_ensures(*h.parse_angle, (&s,), a) && match a {
                Some(a) => turned(*h.degrees, a, r),
                None => r is None,
            },
        (Sampled::Translate, MotionValue::Str(s)) => exists|l: Option<Length2>| #[trigger]
            call_ensures(*h.parse_lengths, (&s,), l) && match l {
                Some(l) => r == pixels(l),
                None => r is None,
            },
        _ => r is None,
    }
}

pub open spec fn numbers_told(r: Option<Vec<Scalar>>) -> Option<Seq<Scalar>> {
    match r {
        Some(v) => Some(v@),
        None => None,
    }
}

fn one_number(x: Scalar) -> (r: Vec<Scalar>)
    ensures
        r@ == seq![x],
{
    let mut out: Vec<Scalar> = Vec::new();
    out.push(x);
    assert(out@ =~= seq![x]);
    out
}

fn two_numbers(x: Scalar, y: Scalar) -> (r: Vec<Scalar>)
    ensures
        r@ == seq![x, y],
{
    let mut out: Vec<Scalar> = Vec::new();
    out.push(x);
    out.push(y);
    assert(out@ =~= seq![x, y]);
    out
}

fn pixel_numbers(l: &Length2) -> (r: Option<Vec<Scalar>>)
    ensures
        numbers_told(r) == pixels(*l),
{
    if l.x.unit == LengthUnit::Px && l.y.unit == LengthUnit::Px {
        Some(two_numbers(l.x.value, l.y.value))
    } else {
        None
    }
}

/// The numbers of a value of a property.
pub fn numeric<
    M: Fn(u32) -> Option<Moment>,
    D: Fn(Angle) -> Scalar,
    A: Fn(&String) -> Option<Angle>,
    G: Fn(&String) -> Option<Length2>,
    S: Fn(Scalar, Scalar) -> Scalar,
>(h: &SampleHost<M, D, A, G, S>, property: Sampled, v: &MotionValue) -> (r: Option<Vec<Scalar>>)
    requires
        tools_ready(*h),
    ensures
        numeric_given(*h, property, *v, numbers_told(r)),
{
    match (property, v) {
        (Sampled::Opacity, MotionValue::Number(x)) => Some(one_number(*x)),
        (Sampled::Scale, MotionValue::Number(x)) => Some(one_number(*x)),
        (Sampled::Scale, MotionValue::Vec2(p)) => Some(two_numbers(p.x, p.y)),
        (Sampled::Translate, MotionValue::Point(p)) => Some(two_numbers(p.x, p.y)),
        (Sampled::Translate, MotionValue::Length2(l)) => pixel_numbers(l),
        (Sampled::Rotate, MotionValue::Angle(a)) => {
            let degrees = h.degrees;
            Some(one_number(degrees(*a)))
        },
        (Sampled::Rotate, MotionValue::Str(s)) => {
            let parse = h.parse_angle;
            let degrees = h.degrees;
            match parse(s) {
                Some(a) => Some(one_number(degrees(a))),
                None => None,
            }
        },
        (Sampled::Translate, MotionValue::Str(s)) => {
            let parse = h.parse_lengths;
            match parse(s) {
                Some(l) => pixel_numbers(&l),
                None => None,
            }
        },
        _ => None,
    }
}

/// A branch that a value came through.
#[derive(Clone, Copy, Debug, PartialEq, Eq, Structural)]
pub enum Branch {
    /// The condition of a selection.
    Condition(Option<bool>),
    /// How many stops of an interpolation lie at or before its input.
    Segment(usize),
}

/// The first stop from `i` on that lies behind an input.
pub open spec fn segment_from(stops: Seq<InterpolateStop>, x: Scalar, i: int) -> int
    decreases stops.len() - i,
{
    if i < 0 || i >= stops.len() {
        stops.len() as int
    } else if stops[i].input.le_spec(x) {
        segment_from(stops, x, i + 1)
    } else {
        i
    }
}

fn segment_of(stops: &Vec<InterpolateStop>, x: Scalar) -> (r: usize)
    ensures
        r == segment_from(stops@, x, 0),
{
    let mut i: usize = 0;
    while i < stops.len()
        invariant
            i <= stops@.len(),
            segment_from(stops@, x, 0) == segment_from(stops@, x, i as int),
        decreases stops@.len() - i,
    {
        if !stops[i].input.le(x) {
            return i;
        }
        i = i + 1;
    }
    i
}

pub open spec fn value_at(values: Seq<Option<MotionValue>>, id: ExprId) -> Option<MotionValue> {
    if id.0 < values.len() {
        values[id.0 as int]
    } else {
        None
    }
}

/// The branch of an expression.
pub open spec fn branch_of(e: Expr, values: Seq<Option<MotionValue>>) -> Option<Branch> {
    match e {
        Expr::Select { condition, .. } => Some(
            Branch::Condition(
                match value_at(values, condition) {
                    Some(MotionValue::Bool(b)) => Some(b),
                    _ => None,
                },
            ),
        ),
        Expr::Interpolate { input, stops, .. } => match value_at(values, input) {
            Some(MotionValue::Number(x)) => Some(
                Branch::Segment(segment_from(stops@, x, 0) as usize),
            ),
            _ => None,
        },
        _ => None,
    }
}

fn branch(e: &Expr, values: &Vec<Option<MotionValue>>) -> (r: Option<Branch>)
    ensures
        r == branch_of(*e, values@),
{
    match e {
        Expr::Select { condition, .. } => {
            let at: usize = condition.0 as usize;
            if at < values.len() {
                match &values[at] {
                    Some(MotionValue::Bool(b)) => Some(Branch::Condition(Some(*b))),
                    _ => Some(Branch::Condition(None)),
                }
            } else {
                Some(Branch::Condition(None))
            }
        },
        Expr::Interpolate { input, stops, .. } => {
            let at: usize = input.0 as usize;
            if at < values.len() {
                match &values[at] {
                    Some(MotionValue::Number(x)) => Some(Branch::Segment(segment_of(stops, *x))),
                    _ => None,
                }
            } else {
                None
            }
        },
        _ => None,
    }
}

/// The branches of the first `n` live expressions.
pub open spec fn branches_of(
    exprs: Seq<Expr>,
    live: Seq<ExprId>,
    values: Seq<Option<MotionValue>>,
    n: nat,
) -> Seq<Branch>
    decreases n,
{
    if n == 0 {
        Seq::empty()
    } else {
        let rest = branches_of(exprs, live, values, (n - 1) as nat);
        match branch_of(exprs[live[n - 1].0 as int], values) {
            Some(b) => rest.push(b),
            None => rest,
        }
    }
}

/// Whether all ids name an expression.
pub open spec fn all_known(exprs: Seq<Expr>, live: Seq<ExprId>) -> bool {
    forall|i: int| 0 <= i < live.len() ==> (#[trigger] live[i]).0 < exprs.len()
}

fn branches(exprs: &Vec<Expr>, live: &Vec<ExprId>, values: &Vec<Option<MotionValue>>) -> (r: Vec<
    Branch,
>)
    requires
        all_known(exprs@, live@),
    ensures
        r@ == branches_of(exprs@, live@, values@, live@.len()),
{
    let mut out: Vec<Branch> = Vec::new();
    let mut i: usize = 0;
    assert(out@ =~= Seq::empty());
    while i < live.len()
        invariant
            i <= live@.len(),
            all_known(exprs@, live@),
            out@ == branches_of(exprs@, live@, values@, i as nat),
        decreases live@.len() - i,
    {
        assert(live@[i as int].0 < exprs@.len());
        if let Some(b) = branch(&exprs[live[i].0 as usize], values) {
            out.push(b);
        }
        i = i + 1;
    }
    out
}

/// The expressions among the first `n` that some roots reach, in order.
pub open spec fn live_among(exprs: Seq<Expr>, roots: Seq<ExprId>, n: nat) -> Seq<ExprId>
    decreases n,
{
    if n == 0 {
        Seq::empty()
    } else {
        let rest = live_among(exprs, roots, (n - 1) as nat);
        if reached(exprs, roots, (n - 1) as u32) {
            rest.push(ExprId((n - 1) as u32))
        } else {
            rest
        }
    }
}

/// The expressions that a binding reads.
pub open spec fn live_of(exprs: Seq<Expr>, binding: StyleValue) -> Seq<ExprId> {
    match binding {
        StyleValue::Static { .. } => Seq::empty(),
        StyleValue::Expr { expr } => live_among(exprs, seq![expr], exprs.len()),
    }
}

/// The expressions that a binding reads.
pub fn live_exprs(exprs: &Vec<Expr>, binding: &StyleValue) -> (r: Vec<ExprId>)
    requires
        exprs@.len() <= u32::MAX,
    ensures
        r@ == live_of(exprs@, *binding),
        all_known(exprs@, r@),
{
    let mut out: Vec<ExprId> = Vec::new();
    match binding {
        StyleValue::Static { .. } => {
            assert(out@ =~= Seq::empty());
            out
        },
        StyleValue::Expr { expr } => {
            let mut roots: Vec<ExprId> = Vec::new();
            roots.push(*expr);
            assert(roots@ =~= seq![*expr]);
            let reach = reachable_exprs(exprs, &roots);
            let flags = live_flags(exprs.len(), &reach);
            let mut i: usize = 0;
            assert(out@ =~= Seq::empty());
            while i < exprs.len()
                invariant
                    i <= exprs@.len() <= u32::MAX,
                    flags@.len() == exprs@.len(),
                    forall|k: int|
                        0 <= k < flags@.len() ==> #[trigger] flags@[k] == live_at(reach@, k),
                    forall|id: u32| #[trigger]
                        live_at(reach@, id as int) <==> reached(exprs@, roots@, id),
                    out@ == live_among(exprs@, roots@, i as nat),
                    all_known(exprs@, out@),
                decreases exprs@.len() - i,
            {
                assert(flags@[i as int] == live_at(reach@, i as int));
                let id: u32 = i as u32;
                assert(live_at(reach@, id as int) <==> reached(exprs@, roots@, id));
                if flags[i] {
                    out.push(ExprId(id));
                }
                i = i + 1;
            }
            out
        },
    }
}

/// Whether an expression moves in steps.
pub open spec fn is_step(e: Expr) -> bool {
    match e {
        Expr::MathUnary { op, .. } => op == MathUnaryOp::Floor || op == MathUnaryOp::Ceil || op
            == MathUnaryOp::Round || op == MathUnaryOp::Trunc || op == MathUnaryOp::Fract,
        Expr::MathBinary { op, .. } => op == MathBinaryOp::Mod || op == MathBinaryOp::Remainder,
        Expr::PathTrajectory { .. } => true,
        Expr::Template { .. } => true,
        _ => false,
    }
}

/// Whether some live expression moves in steps.
pub open spec fn steps(exprs: Seq<Expr>, live: Seq<ExprId>) -> bool {
    exists|i: int| 0 <= i < live.len() && is_step(exprs[(#[trigger] live[i]).0 as int])
}

pub fn any_steps(exprs: &Vec<Expr>, live: &Vec<ExprId>) -> (r: bool)
    requires
        all_known(exprs@, live@),
    ensures
        r == steps(exprs@, live@),
{
    let mut i: usize = 0;
    while i < live.len()
        invariant
            i <= live@.len(),
            all_known(exprs@, live@),
            forall|k: int| 0 <= k < i ==> !is_step(exprs@[(#[trigger] live@[k]).0 as int]),
        decreases live@.len() - i,
    {
        assert(live@[i as int].0 < exprs@.len());
        let one = match &exprs[live[i].0 as usize] {
            Expr::MathUnary { op, .. } => *op == MathUnaryOp::Floor || *op == MathUnaryOp::Ceil
                || *op == MathUnaryOp::Round || *op == MathUnaryOp::Trunc || *op
                == MathUnaryOp::Fract,
            Expr::MathBinary { op, .. } => *op == MathBinaryOp::Mod || *op
                == MathBinaryOp::Remainder,
            Expr::PathTrajectory { .. } => true,
            Expr::Template { .. } => true,
            _ => false,
        };
        if one {
            assert(is_step(exprs@[live@[i as int].0 as int]));
            return true;
        }
        i = i + 1;
    }
    false
}

/// A property at an instant: its numbers and its branches.
#[derive(Debug)]
pub struct Instant {
    pub value: Vec<Scalar>,
    pub branches: Vec<Branch>,
}

/// An instant by its contents, or the text of a failure.
pub open spec fn instant_seen(r: Result<Instant, String>) -> Result<
    (Seq<Scalar>, Seq<Branch>),
    Seq<char>,
> {
    match r {
        Ok(i) => Ok((i.value@, i.branches@)),
        Err(s) => Err(s@),
    }
}

/// What is sampled: a property with its binding and the expressions that it reads.
pub struct Probe<'a> {
    pub property: Sampled,
    pub binding: &'a StyleValue,
    pub live: &'a Vec<ExprId>,
}

/// The value of a binding among evaluated ones.
pub open spec fn bound_at(binding: StyleValue, values: Seq<Option<MotionValue>>) -> Option<MotionValue> {
    match binding {
        StyleValue::Static { value } => Some(value),
        StyleValue::Expr { expr } => value_at(values, expr),
    }
}

/// Whether `r` is an instant with evaluated values.
pub open spec fn shown<
    M: Fn(u32) -> Option<Moment>,
    D: Fn(Angle) -> Scalar,
    A: Fn(&String) -> Option<Angle>,
    G: Fn(&String) -> Option<Length2>,
    S: Fn(Scalar, Scalar) -> Scalar,
>(
    h: SampleHost<M, D, A, G, S>,
    exprs: Seq<Expr>,
    probe: Probe,
    out: Result<Vec<Option<MotionValue>>, EvalError>,
    r: Result<(Seq<Scalar>, Seq<Branch>), Seq<char>>,
) -> bool {
    match out {
        Err(e) => r == Err::<(Seq<Scalar>, Seq<Branch>), Seq<char>>(e.text()),
        Ok(values) => match bound_at(*probe.binding, values@) {
            None => r == Err::<(Seq<Scalar>, Seq<Branch>), Seq<char>>("missing expression"@),
            Some(v) => match r {
                Ok(i) => numeric_given(h, probe.property, v, Some(i.0)) && i.1 == branches_of(
                    exprs,
                    probe.live@,
                    values@,
                    probe.live@.len(),
                ),
                Err(t) => numeric_given(h, probe.property, v, None) && t
                    == "Requires resolved CSS units or a nonnumeric value"@,
            },
        },
    }
}

/// The inputs of an instant.
pub open spec fn inputs_at<'a>(
    m: &'a Moment,
    props: &'a ResolvedProps,
    size: (Scalar, Scalar),
) -> EvalInputs<'a> {
    EvalInputs { ctx: &m.ctx, props, signals: &m.signals, unit: None, viewport: Some(size) }
}

/// Whether `r` is a property at a frame.
pub open spec fn instant_given<
    K: Fn(&Kernel) -> Result<MotionValue, KernelError>,
    T: Fn(&MotionValue) -> String,
    M: Fn(u32) -> Option<Moment>,
    D: Fn(Angle) -> Scalar,
    A: Fn(&String) -> Option<Angle>,
    G: Fn(&String) -> Option<Length2>,
    S: Fn(Scalar, Scalar) -> Scalar,
>(
    host: K,
    tokens: T,
    h: SampleHost<M, D, A, G, S>,
    exprs: Seq<Expr>,
    props: &ResolvedProps,
    size: (Scalar, Scalar),
    probe: Probe,
    frame: u32,
    r: Result<(Seq<Scalar>, Seq<Branch>), Seq<char>>,
) -> bool {
    exists|moment: Option<Moment>| #[trigger]
        call_ensures(*h.moment, (frame,), moment) && match moment {
            None => r == Err::<(Seq<Scalar>, Seq<Branch>), Seq<char>>("frame outside scene"@),
            Some(m) => exists|out: Result<Vec<Option<MotionValue>>, EvalError>| #[trigger]
                slice_told(host, tokens, exprs, inputs_at(&m, props, size), probe.live@, out)
                    && shown(h, exprs, probe, out, r),
        }
}

/// A property at a frame.
pub fn instant<
    K: Fn(&Kernel) -> Result<MotionValue, KernelError>,
    T: Fn(&MotionValue) -> String,
    M: Fn(u32) -> Option<Moment>,
    D: Fn(Angle) -> Scalar,
    A: Fn(&String) -> Option<Angle>,
    G: Fn(&String) -> Option<Length2>,
    S: Fn(Scalar, Scalar) -> Scalar,
>(
    host: &K,
    tokens: &T,
    h: &SampleHost<M, D, A, G, S>,
    exprs: &Vec<Expr>,
    props: &ResolvedProps,
    size: (Scalar, Scalar),
    probe: &Probe,
    frame: u32,
) -> (r: Result<Instant, String>)
    requires
        forall|k: Kernel| call_requires(*host, (&k,)),
        forall|v: MotionValue| call_requires(*tokens, (&v,)),
        tools_ready(*h),
        all_known(exprs@, probe.live@),
    ensures
        instant_given(
            *host,
            *tokens,
            *h,
            exprs@,
            props,
            size,
            *probe,
            frame,
            instant_seen(r),
        ),
{
    let moment = h.moment;
    let found = moment(frame);
    assert(call_ensures(*h.moment, (frame,), found));
    match &found {
        None => Err("frame outside scene".to_owned()),
        Some(m) => {
            let inputs = EvalInputs {
                ctx: &m.ctx,
                props,
                signals: &m.signals,
                unit: None,
                viewport: Some(size),
            };
            let out = eval_slice(host, tokens, exprs, &inputs, probe.live);
            let ghost told = out;
            assert(slice_told(
                *host,
                *tokens,
                exprs@,
                inputs_at(m, props, size),
                probe.live@,
                told,
            ));
            match &out {
                Err(e) => Err(e.message()),
                Ok(values) => {
                    let bound: Option<&MotionValue> = match probe.binding {
                        StyleValue::Static { value } => Some(value),
                        StyleValue::Expr { expr } => {
                            let at: usize = expr.0 as usize;
                            if at < values.len() {
                                match &values[at] {
                                    Some(v) => Some(v),
                                    None => None,
                                }
                            } else {
                                None
                            }
                        },
                    };
                    match bound {
                        None => Err("missing expression".to_owned()),
                        Some(v) => match numeric(h, probe.property, v) {
                            None => Err(
                                "Requires resolved CSS units or a nonnumeric value".to_owned(),
                            ),
                            Some(value) => Ok(
                                Instant {
                                    value,
                                    branches: branches(exprs, probe.live, values),
                                },
                            ),
                        },
                    }
                },
            }
        },
    }
}

} // verus!
