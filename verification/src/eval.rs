//! Evaluating one expression. Decisions, selections and errors are settled here; arithmetic and
//! curve sampling are asked of the host, one kernel at a time.

use vstd::prelude::*;

use crate::faults::{EvalError, Fault};
use crate::blend::{ask_number, blend, blend_gives, number_told};
use crate::expr::{
    CompareOp, ContextInput, CueField, Expr, ExprId, Extrapolation, GeometryField, InterpolateStop,
    MathBinaryOp, MathUnaryOp, NumberFormat, PhaseKind, TemplatePart, MAX_TEMPLATE_OUTPUT_BYTES,
};
use crate::path::{
    area_path, checked, copy_verbs, line_verbs, open_fault, path_seen, GeometryError, Path,
    PathData, PathVerb,
};
use crate::recording::{Point, Rect, Rgba};
use crate::scalar::{num, Scalar, ZERO};
use crate::table::{ascending, find, lookup, same_text, Entry};
use crate::text::{byte_len, byte_len_is_encoding_len, joined};
use crate::value::{
    css_token, token_written, Angle, Length2, LengthUnit, MotionEasing, MotionValue, Value,
};

verus! {

/// Text-unit identity with byte offsets relative to its own node text.
#[derive(Clone, Copy, Debug, PartialEq, Eq, Structural)]
pub struct UnitContext {
    pub index: u32,
    pub count: u32,
    pub start: u32,
    pub end: u32,
}

/// Timing of one phase.
#[derive(Clone, Copy, Debug, PartialEq, Eq, Structural)]
pub struct PhaseContext {
    pub active: bool,
    pub frame: u32,
    pub elapsed_frames: i32,
    pub duration_frames: u32,
    pub progress: Scalar,
}

/// Timing of one frame.
#[derive(Clone, Copy, Debug, PartialEq, Eq, Structural)]
pub struct MotionContext {
    pub local_frame: u32,
    pub progress: Scalar,
    pub composition_seconds: Scalar,
    pub duration_frames: u32,
    pub fps_numerator: Scalar,
    pub fps_denominator: u32,
    /// Frames per second.
    pub fps: Scalar,
    pub enter: PhaseContext,
    pub hold: PhaseContext,
    pub hold_iteration: u32,
    pub hold_cycle_frame: u32,
    pub hold_cycle_progress: Scalar,
    pub exit: PhaseContext,
}

/// Prop values after merging overrides with control defaults.
pub struct ResolvedProps {
    pub values: Vec<Entry<MotionValue>>,
}

impl ResolvedProps {
    /// Values stand in ascending order of their names, none twice.
    pub open spec fn wf(self) -> bool {
        ascending(self.values@)
    }

    /// No props.
    pub fn empty() -> (r: ResolvedProps)
        ensures
            r.values@.len() == 0,
            r.wf(),
    {
        ResolvedProps { values: Vec::new() }
    }

    /// The value of a prop.
    pub fn get(&self, name: &str) -> (r: Option<&MotionValue>)
        ensures
            match r {
                Some(v) => find(self.values@, name@) == Some(*v),
                None => find(self.values@, name@) is None,
            },
    {
        lookup(&self.values, name)
    }

    /// All values under their names.
    pub fn as_map(&self) -> (r: &Vec<Entry<MotionValue>>)
        ensures
            *r == self.values,
    {
        &self.values
    }
}

/// The resolved state of a cue.
#[derive(Clone, Copy, Debug, PartialEq, Eq, Structural)]
pub struct CueSignal {
    pub active: bool,
    pub progress: Scalar,
    pub enter: Scalar,
    pub hold: Scalar,
    pub exit: Scalar,
    pub local_frame: i32,
}

/// Everything that one evaluation of the arena can read.
pub struct EvalInputs<'a> {
    pub ctx: &'a MotionContext,
    pub props: &'a ResolvedProps,
    pub signals: &'a Vec<Entry<CueSignal>>,
    /// Current text unit, if any.
    pub unit: Option<UnitContext>,
    /// Viewport width and height, if known.
    pub viewport: Option<(Scalar, Scalar)>,
}

/// A projected anchor of a 3D scene.
pub struct ProjectedAnchor {
    pub scene_key: String,
    pub anchor_key: String,
    pub point: Point,
}

/// What is known only after layout.
pub struct LayoutInputs<'a> {
    pub bounds: Option<&'a Vec<Entry<Rect>>>,
    pub projected: Option<&'a Vec<ProjectedAnchor>>,
}

/// A value result by its contents.
pub open spec fn eval_seen(r: Result<MotionValue, EvalError>) -> Result<Value, Fault> {
    match r {
        Ok(v) => Ok(v@),
        Err(e) => Err(e@),
    }
}

/// A numeric task for the host.
#[derive(Debug)]
pub enum Kernel {
    Add { a: Scalar, b: Scalar },
    Sub { a: Scalar, b: Scalar },
    Mul { a: Scalar, b: Scalar },
    Div { a: Scalar, b: Scalar },
    MathUnary { op: MathUnaryOp, x: Scalar },
    MathBinary { op: MathBinaryOp, a: Scalar, b: Scalar },
    Noise1D { seed: u64, x: Scalar },
    Noise2D { seed: u64, x: Scalar, y: Scalar },
    Format { x: Scalar, format: NumberFormat },
    Spring { frames: Scalar, fps: Scalar, mass: Scalar, stiffness: Scalar, damping: Scalar },
    /// The eased fraction `(input - start) / span`.
    Fraction { start: Scalar, span: Scalar, input: Scalar, easing: Option<MotionEasing> },
    /// The number at a fraction of the way between two others.
    Lerp { a: Scalar, b: Scalar, t: Scalar },
    /// An angle in degrees.
    Degrees { angle: Angle },
    /// The color at a fraction of the way between two others, by premultiplied channels.
    Mix { a: Rgba, b: Rgba, t: Scalar },
    Arc { center: Point, radius: Scalar, start: Scalar, end: Scalar },
    Offset { path: PathData, distance: Scalar },
    Morph { from: PathData, to: PathData, progress: Scalar },
    PointAt { path: PathData, progress: Scalar },
    TangentAt { path: PathData, progress: Scalar },
    AngleAt { path: PathData, progress: Scalar },
    Length { path: PathData },
}

/// A numeric task by its contents.
pub enum Task {
    Add(Scalar, Scalar),
    Sub(Scalar, Scalar),
    Mul(Scalar, Scalar),
    Div(Scalar, Scalar),
    MathUnary(MathUnaryOp, Scalar),
    MathBinary(MathBinaryOp, Scalar, Scalar),
    Noise1D(u64, Scalar),
    Noise2D(u64, Scalar, Scalar),
    Format(Scalar, NumberFormat),
    Spring(Scalar, Scalar, Scalar, Scalar, Scalar),
    Fraction(Scalar, Scalar, Scalar, Option<MotionEasing>),
    Lerp(Scalar, Scalar, Scalar),
    Degrees(Angle),
    Mix(Rgba, Rgba, Scalar),
    Arc(Point, Scalar, Scalar, Scalar),
    Offset(Path, Scalar),
    Morph(Path, Path, Scalar),
    PointAt(Path, Scalar),
    TangentAt(Path, Scalar),
    AngleAt(Path, Scalar),
    Length(Path),
}

impl View for Kernel {
    type V = Task;

    open spec fn view(&self) -> Task {
        match *self {
            Kernel::Add { a, b } => Task::Add(a, b),
            Kernel::Sub { a, b } => Task::Sub(a, b),
            Kernel::Mul { a, b } => Task::Mul(a, b),
            Kernel::Div { a, b } => Task::Div(a, b),
            Kernel::MathUnary { op, x } => Task::MathUnary(op, x),
            Kernel::MathBinary { op, a, b } => Task::MathBinary(op, a, b),
            Kernel::Noise1D { seed, x } => Task::Noise1D(seed, x),
            Kernel::Noise2D { seed, x, y } => Task::Noise2D(seed, x, y),
            Kernel::Format { x, format } => Task::Format(x, format),
            Kernel::Spring { frames, fps, mass, stiffness, damping } => Task::Spring(
                frames,
                fps,
                mass,
                stiffness,
                damping,
            ),
            Kernel::Fraction { start, span, input, easing } => Task::Fraction(
                start,
                span,
                input,
                easing,
            ),
            Kernel::Lerp { a, b, t } => Task::Lerp(a, b, t),
            Kernel::Degrees { angle } => Task::Degrees(angle),
            Kernel::Mix { a, b, t } => Task::Mix(a, b, t),
            Kernel::Arc { center, radius, start, end } => Task::Arc(center, radius, start, end),
            Kernel::Offset { path, distance } => Task::Offset(path@, distance),
            Kernel::Morph { from, to, progress } => Task::Morph(from@, to@, progress),
            Kernel::PointAt { path, progress } => Task::PointAt(path@, progress),
            Kernel::TangentAt { path, progress } => Task::TangentAt(path@, progress),
            Kernel::AngleAt { path, progress } => Task::AngleAt(path@, progress),
            Kernel::Length { path } => Task::Length(path@),
        }
    }
}

/// Why the host could not do a task.
#[derive(Clone, Copy, Debug, PartialEq, Eq, Structural)]
pub enum KernelError {
    Geometry(GeometryError),
    /// The input lies outside the function's domain.
    Domain,
}

pub open spec fn answer_seen(r: Result<MotionValue, KernelError>) -> Result<Value, KernelError> {
    match r {
        Ok(v) => Ok(v@),
        Err(e) => Err(e),
    }
}

/// Whether the host can answer a task with `r`.
pub open spec fn answers<K: Fn(&Kernel) -> Result<MotionValue, KernelError>>(
    host: K,
    task: Task,
    r: Result<Value, KernelError>,
) -> bool {
    exists|k: Kernel, out: Result<MotionValue, KernelError>| #[trigger]
        call_ensures(host, (&k,), out) && k@ == task && answer_seen(out) == r
}

/// A piece of a template: literal text, the token of a value, or a reference without value.
pub enum Piece {
    Text(Seq<char>),
    Token(Value),
    Missing(int),
}

/// How the value of an expression comes about.
pub enum Plan {
    Value(Value),
    Fail(Fault),
    /// The host's answer; a domain error is reported for the named operation.
    Ask(Task, Seq<char>),
    /// The host's difference of the two stop inputs, then a blend of their outputs.
    Segment(Stop, Stop, Scalar, Option<MotionEasing>),
    Text(Seq<Piece>),
}

/// A stop by its contents.
pub struct Stop {
    pub input: Scalar,
    pub output: Value,
}

pub open spec fn stop_of(s: InterpolateStop) -> Stop {
    Stop { input: s.input, output: s.output@ }
}

/// The value of an earlier expression.
pub open spec fn operand(at: int, done: Seq<Value>, id: ExprId) -> Result<Value, Fault> {
    if id.0 < done.len() { Ok(done[id.0 as int]) } else { Err(Fault::BadExpr(at, id.0 as int)) }
}

pub open spec fn number_of(at: int, op: Seq<char>, v: Value) -> Result<Scalar, Fault> {
    match v {
        Value::Number(x) => Ok(x),
        _ => Err(Fault::TypeMismatch(at, op)),
    }
}

/// A number operand.
pub open spec fn number(at: int, op: Seq<char>, done: Seq<Value>, id: ExprId) -> Result<
    Scalar,
    Fault,
> {
    match operand(at, done, id) {
        Ok(v) => number_of(at, op, v),
        Err(e) => Err(e),
    }
}

/// Number operands, the first that is missing or no number deciding the error.
pub open spec fn numbers(at: int, op: Seq<char>, done: Seq<Value>, ids: Seq<ExprId>, n: nat) -> Result<
    Seq<Scalar>,
    Fault,
>
    decreases n,
{
    if n == 0 {
        Ok(Seq::empty())
    } else {
        match numbers(at, op, done, ids, (n - 1) as nat) {
            Err(e) => Err(e),
            Ok(before) => match number(at, op, done, ids[n - 1]) {
                Err(e) => Err(e),
                Ok(x) => Ok(before.push(x)),
            },
        }
    }
}

/// A point operand.
pub open spec fn point(at: int, op: Seq<char>, done: Seq<Value>, id: ExprId) -> Result<Point, Fault> {
    match operand(at, done, id) {
        Ok(Value::Point(p)) => Ok(p),
        Ok(_) => Err(Fault::TypeMismatch(at, op)),
        Err(e) => Err(e),
    }
}

/// Point operands, the first that is missing or no point deciding the error.
pub open spec fn points(at: int, op: Seq<char>, done: Seq<Value>, ids: Seq<ExprId>, n: nat) -> Result<
    Seq<Point>,
    Fault,
>
    decreases n,
{
    if n == 0 {
        Ok(Seq::empty())
    } else {
        match points(at, op, done, ids, (n - 1) as nat) {
            Err(e) => Err(e),
            Ok(before) => match point(at, op, done, ids[n - 1]) {
                Err(e) => Err(e),
                Ok(p) => Ok(before.push(p)),
            },
        }
    }
}

/// A path operand.
pub open spec fn path(at: int, op: Seq<char>, done: Seq<Value>, id: ExprId) -> Result<Path, Fault> {
    match operand(at, done, id) {
        Ok(Value::PathData(p)) => Ok(p),
        Ok(_) => Err(Fault::TypeMismatch(at, op)),
        Err(e) => Err(e),
    }
}

pub open spec fn planned_path(at: int, r: Result<Path, GeometryError>) -> Plan {
    match r {
        Ok(p) => Plan::Value(Value::PathData(p)),
        Err(e) => Plan::Fail(Fault::BadGeometry(at, e)),
    }
}

/// A path operand and a number operand, in this order.
pub open spec fn path_and_number(
    at: int,
    op: Seq<char>,
    done: Seq<Value>,
    a: ExprId,
    b: ExprId,
) -> Result<(Path, Scalar), Fault> {
    match path(at, op, done, a) {
        Err(e) => Err(e),
        Ok(p) => match number(at, op, done, b) {
            Err(e) => Err(e),
            Ok(x) => Ok((p, x)),
        },
    }
}

/// Two operands that are both looked up before either is read as a number.
pub open spec fn pair(at: int, op: Seq<char>, done: Seq<Value>, a: ExprId, b: ExprId) -> Result<
    (Scalar, Scalar),
    Fault,
> {
    match (operand(at, done, a), operand(at, done, b)) {
        (Err(e), _) => Err(e),
        (Ok(_), Err(e)) => Err(e),
        (Ok(x), Ok(y)) => match number_of(at, op, x) {
            Err(e) => Err(e),
            Ok(x) => match number_of(at, op, y) {
                Err(e) => Err(e),
                Ok(y) => Ok((x, y)),
            },
        },
    }
}

pub open spec fn phase_of(ctx: MotionContext, kind: PhaseKind) -> PhaseContext {
    match kind {
        PhaseKind::Enter => ctx.enter,
        PhaseKind::Hold => ctx.hold,
        PhaseKind::Exit => ctx.exit,
    }
}

/// The value of a context input; nothing where the unit or the viewport is unknown.
pub open spec fn context_of(
    input: ContextInput,
    ctx: MotionContext,
    unit: Option<UnitContext>,
    viewport: Option<(Scalar, Scalar)>,
) -> Option<Value> {
    match input {
        ContextInput::LocalFrame => Some(Value::Number(Scalar::integer(ctx.local_frame as int))),
        ContextInput::LocalProgress => Some(Value::Number(ctx.progress)),
        ContextInput::CompositionSeconds => Some(Value::Number(ctx.composition_seconds)),
        ContextInput::DurationFrames => Some(
            Value::Number(Scalar::integer(ctx.duration_frames as int)),
        ),
        ContextInput::FpsNum => Some(Value::Number(ctx.fps_numerator)),
        ContextInput::FpsDen => Some(Value::Number(Scalar::integer(ctx.fps_denominator as int))),
        ContextInput::PhaseFrame { phase } => Some(
            Value::Number(Scalar::integer(phase_of(ctx, phase).frame as int)),
        ),
        ContextInput::PhaseDurationFrames { phase } => Some(
            Value::Number(Scalar::integer(phase_of(ctx, phase).duration_frames as int)),
        ),
        ContextInput::PhaseProgress { phase } => Some(Value::Number(phase_of(ctx, phase).progress)),
        ContextInput::PhaseElapsedFrames { phase } => Some(
            Value::Number(Scalar::integer(phase_of(ctx, phase).elapsed_frames as int)),
        ),
        ContextInput::PhaseActive { phase } => Some(Value::Bool(phase_of(ctx, phase).active)),
        ContextInput::HoldIteration => Some(
            Value::Number(Scalar::integer(ctx.hold_iteration as int)),
        ),
        ContextInput::HoldCycleFrame => Some(
            Value::Number(Scalar::integer(ctx.hold_cycle_frame as int)),
        ),
        ContextInput::HoldCycleProgress => Some(Value::Number(ctx.hold_cycle_progress)),
        ContextInput::UnitIndex => match unit {
            Some(u) => Some(Value::Number(Scalar::integer(u.index as int))),
            None => None,
        },
        ContextInput::UnitCount => match unit {
            Some(u) => Some(Value::Number(Scalar::integer(u.count as int))),
            None => None,
        },
        ContextInput::UnitStart => match unit {
            Some(u) => Some(Value::Number(Scalar::integer(u.start as int))),
            None => None,
        },
        ContextInput::UnitEnd => match unit {
            Some(u) => Some(Value::Number(Scalar::integer(u.end as int))),
            None => None,
        },
        ContextInput::ViewportWidth => match viewport {
            Some(v) => Some(Value::Number(v.0)),
            None => None,
        },
        ContextInput::ViewportHeight => match viewport {
            Some(v) => Some(Value::Number(v.1)),
            None => None,
        },
    }
}

fn of_u32(n: u32) -> (r: MotionValue)
    ensures
        r@ == Value::Number(Scalar::integer(n as int)),
{
    MotionValue::Number(Scalar::from_u32(n))
}

fn phase_at(ctx: &MotionContext, kind: PhaseKind) -> (r: PhaseContext)
    ensures
        r == phase_of(*ctx, kind),
{
    match kind {
        PhaseKind::Enter => ctx.enter,
        PhaseKind::Hold => ctx.hold,
        PhaseKind::Exit => ctx.exit,
    }
}

/// Reads a context input. Missing unit or viewport contexts stay undefined.
pub fn context_value(
    input: ContextInput,
    ctx: &MotionContext,
    unit: Option<UnitContext>,
    viewport: Option<(Scalar, Scalar)>,
) -> (r: Option<MotionValue>)
    ensures
        match r {
            Some(v) => context_of(input, *ctx, unit, viewport) == Some(v@),
            None => context_of(input, *ctx, unit, viewport) is None,
        },
{
    match input {
        ContextInput::LocalFrame => Some(of_u32(ctx.local_frame)),
        ContextInput::LocalProgress => Some(MotionValue::Number(ctx.progress)),
        ContextInput::CompositionSeconds => Some(MotionValue::Number(ctx.composition_seconds)),
        ContextInput::DurationFrames => Some(of_u32(ctx.duration_frames)),
        ContextInput::FpsNum => Some(MotionValue::Number(ctx.fps_numerator)),
        ContextInput::FpsDen => Some(of_u32(ctx.fps_denominator)),
        ContextInput::PhaseFrame { phase } => Some(of_u32(phase_at(ctx, phase).frame)),
        ContextInput::PhaseDurationFrames { phase } => Some(
            of_u32(phase_at(ctx, phase).duration_frames),
        ),
        ContextInput::PhaseProgress { phase } => Some(
            MotionValue::Number(phase_at(ctx, phase).progress),
        ),
        ContextInput::PhaseElapsedFrames { phase } => Some(
            MotionValue::Number(Scalar::from_i32(phase_at(ctx, phase).elapsed_frames)),
        ),
        ContextInput::PhaseActive { phase } => Some(
            MotionValue::Bool(phase_at(ctx, phase).active),
        ),
        ContextInput::HoldIteration => Some(of_u32(ctx.hold_iteration)),
        ContextInput::HoldCycleFrame => Some(of_u32(ctx.hold_cycle_frame)),
        ContextInput::HoldCycleProgress => Some(MotionValue::Number(ctx.hold_cycle_progress)),
        ContextInput::UnitIndex => match unit {
            Some(u) => Some(of_u32(u.index)),
            None => None,
        },
        ContextInput::UnitCount => match unit {
            Some(u) => Some(of_u32(u.count)),
            None => None,
        },
        ContextInput::UnitStart => match unit {
            Some(u) => Some(of_u32(u.start)),
            None => None,
        },
        ContextInput::UnitEnd => match unit {
            Some(u) => Some(of_u32(u.end)),
            None => None,
        },
        ContextInput::ViewportWidth => match viewport {
            Some(v) => Some(MotionValue::Number(v.0)),
            None => None,
        },
        ContextInput::ViewportHeight => match viewport {
            Some(v) => Some(MotionValue::Number(v.1)),
            None => None,
        },
    }
}

/// The first projected anchor among the first `n` under a scene and an anchor key.
pub open spec fn projected_at(
    anchors: Seq<ProjectedAnchor>,
    scene: Seq<char>,
    anchor: Seq<char>,
    n: nat,
) -> Option<Point>
    decreases n,
{
    if n == 0 {
        None
    } else {
        match projected_at(anchors, scene, anchor, (n - 1) as nat) {
            Some(p) => Some(p),
            None => if anchors[n - 1].scene_key@ == scene && anchors[n - 1].anchor_key@ == anchor {
                Some(anchors[n - 1].point)
            } else {
                None
            },
        }
    }
}

/// Values of inputs and constants.
pub open spec fn leaf_plan(at: int, e: Expr, inputs: EvalInputs, layout: LayoutInputs) -> Plan {
    match e {
        Expr::Const { value } => Plan::Value(value@),
        Expr::Context { input } => match context_of(
            input,
            *inputs.ctx,
            inputs.unit,
            inputs.viewport,
        ) {
            Some(v) => Plan::Value(v),
            None => if input == ContextInput::ViewportWidth || input
                == ContextInput::ViewportHeight {
                Plan::Fail(Fault::ViewportUnavailable(at))
            } else {
                Plan::Fail(Fault::UnitOutsidePerUnit(at))
            },
        },
        Expr::Prop { name } => match find(inputs.props.values@, name@) {
            Some(v) => Plan::Value(v@),
            None => Plan::Fail(Fault::MissingProp(name@)),
        },
        Expr::NodeBounds { key } => match layout.bounds {
            None => Plan::Fail(Fault::BoundsOutsidePostLayout(at)),
            Some(bounds) => match find(bounds@, key@) {
                Some(r) => Plan::Value(Value::Rect(r)),
                None => Plan::Fail(Fault::MissingBoundsTarget(key@)),
            },
        },
        Expr::Project3D { scene_key, anchor_key } => match layout.projected {
            None => Plan::Fail(Fault::Project3DOutsidePostLayout(at)),
            Some(anchors) => match projected_at(
                anchors@,
                scene_key@,
                anchor_key@,
                anchors@.len(),
            ) {
                Some(p) => Plan::Value(Value::Point(p)),
                None => Plan::Fail(Fault::MissingProject3DTarget(scene_key@, anchor_key@)),
            },
        },
        Expr::Cue { name, field } => match find(inputs.signals@, name@) {
            None => Plan::Fail(Fault::MissingCue(name@)),
            Some(cue) => Plan::Value(
                match field {
                    CueField::Active => Value::Bool(cue.active),
                    CueField::Progress => Value::Number(cue.progress),
                    CueField::Enter => Value::Number(cue.enter),
                    CueField::Hold => Value::Number(cue.hold),
                    CueField::Exit => Value::Number(cue.exit),
                    CueField::LocalFrame => Value::Number(Scalar::integer(cue.local_frame as int)),
                },
            ),
        },
        _ => Plan::Fail(Fault::BadExpr(at, at)),
    }
}

/// Values of geometry.
pub open spec fn geometry_plan(at: int, e: Expr, done: Seq<Value>) -> Plan {
    match e {
        Expr::MakePoint { x, y } => match numbers(at, "point"@, done, seq![x, y], 2) {
            Ok(n) => Plan::Value(Value::Point(Point { x: n[0], y: n[1] })),
            Err(f) => Plan::Fail(f),
        },
        Expr::MakeRect { x, y, width, height } => match numbers(
            at,
            "rect"@,
            done,
            seq![x, y, width, height],
            4,
        ) {
            Ok(n) => Plan::Value(
                Value::Rect(Rect { x: n[0], y: n[1], width: n[2], height: n[3] }),
            ),
            Err(f) => Plan::Fail(f),
        },
        Expr::PathLine { points: ids } => match points(at, "line"@, done, ids@, ids@.len()) {
            Err(f) => Plan::Fail(f),
            Ok(p) => planned_path(
                at,
                if p.len() < 2 {
                    Err(GeometryError::TooFewPoints)
                } else {
                    checked(Path { verbs: line_verbs(p.len()), points: p })
                },
            ),
        },
        Expr::PathTemplate { verbs, points: ids } => match points(
            at,
            "pathTemplate"@,
            done,
            ids@,
            ids@.len(),
        ) {
            Err(f) => Plan::Fail(f),
            Ok(p) => planned_path(at, checked(Path { verbs: verbs@, points: p })),
        },
        Expr::PathCubic { from, control_1, control_2, to } => match points(
            at,
            "cubic"@,
            done,
            seq![from, control_1, control_2, to],
            4,
        ) {
            Err(f) => Plan::Fail(f),
            Ok(p) => planned_path(
                at,
                checked(
                    Path {
                        verbs: seq![PathVerb::Move, PathVerb::Cubic],
                        points: seq![p[0], p[1], p[2], p[3]],
                    },
                ),
            ),
        },
        Expr::PathArc { center, radius, start_angle, end_angle } => match point(
            at,
            "arc"@,
            done,
            center,
        ) {
            Err(f) => Plan::Fail(f),
            Ok(c) => match numbers(at, "arc"@, done, seq![radius, start_angle, end_angle], 3) {
                Err(f) => Plan::Fail(f),
                Ok(n) => Plan::Ask(Task::Arc(c, n[0], n[1], n[2]), "arc"@),
            },
        },
        Expr::PathArea { path: p, baseline } => match path_and_number(
            at,
            "area"@,
            done,
            p,
            baseline,
        ) {
            Err(f) => Plan::Fail(f),
            Ok((p, y)) => planned_path(
                at,
                if !y.finite() {
                    Err(GeometryError::NonFinite)
                } else {
                    match open_fault(p) {
                        Some(e) => Err(e),
                        None => checked(area_path(p, y)),
                    }
                },
            ),
        },
        Expr::PathOffset { path: p, distance } => match path_and_number(
            at,
            "offsetPath"@,
            done,
            p,
            distance,
        ) {
            Err(f) => Plan::Fail(f),
            Ok((p, x)) => Plan::Ask(Task::Offset(p, x), "offsetPath"@),
        },
        Expr::PathMorph { from, to, progress } => match path(at, "morphPath"@, done, from) {
            Err(f) => Plan::Fail(f),
            Ok(a) => match path_and_number(at, "morphPath"@, done, to, progress) {
                Err(f) => Plan::Fail(f),
                Ok((b, x)) => Plan::Ask(Task::Morph(a, b, x), "morphPath"@),
            },
        },
        Expr::PathPointAt { path: p, progress } => match path_and_number(
            at,
            "pointAt"@,
            done,
            p,
            progress,
        ) {
            Err(f) => Plan::Fail(f),
            Ok((p, x)) => Plan::Ask(Task::PointAt(p, x), "pointAt"@),
        },
        Expr::PathTangentAt { path: p, progress } => match path_and_number(
            at,
            "tangentAt"@,
            done,
            p,
            progress,
        ) {
            Err(f) => Plan::Fail(f),
            Ok((p, x)) => Plan::Ask(Task::TangentAt(p, x), "tangentAt"@),
        },
        Expr::PathAngleAt { path: p, progress } => match path_and_number(
            at,
            "motionPath"@,
            done,
            p,
            progress,
        ) {
            Err(f) => Plan::Fail(f),
            Ok((p, x)) => Plan::Ask(Task::AngleAt(p, x), "motionPath"@),
        },
        Expr::PathLength { path: p } => match path(at, "pathLength"@, done, p) {
            Err(f) => Plan::Fail(f),
            Ok(p) => Plan::Ask(Task::Length(p), "pathLength"@),
        },
        Expr::PathTrajectory { frames, frame } => if frames@.len() == 0 {
            Plan::Fail(Fault::BadGeometry(at, GeometryError::BadTrajectory))
        } else {
            match number(at, "pathTrajectory"@, done, frame) {
                Err(f) => Plan::Fail(f),
                Ok(x) => {
                    let last = frames@.len() - 1;
                    let k = if x.floor_int() <= last { x.floor_int() } else { last };
                    Plan::Value(Value::PathData(frames@[k]@))
                },
            }
        },
        Expr::GeometryField { input, field } => match operand(at, done, input) {
            Err(f) => Plan::Fail(f),
            Ok(v) => match field_of(v, field) {
                Some(x) => Plan::Value(Value::Number(x)),
                None => Plan::Fail(Fault::TypeMismatch(at, "geometry field"@)),
            },
        },
        Expr::ToLength2 { input } => match operand(at, done, input) {
            Err(f) => Plan::Fail(f),
            Ok(Value::Length2(l)) => Plan::Value(Value::Length2(l)),
            Ok(Value::Point(p)) => Plan::Value(Value::Length2(pixels(p))),
            Ok(Value::Vec2(p)) => Plan::Value(Value::Length2(pixels(p))),
            Ok(_) => Plan::Fail(Fault::TypeMismatch(at, "length-pair conversion"@)),
        },
        _ => Plan::Fail(Fault::BadExpr(at, at)),
    }
}

pub open spec fn pixels(p: Point) -> Length2 {
    Length2 {
        x: crate::value::Length { value: p.x, unit: LengthUnit::Px },
        y: crate::value::Length { value: p.y, unit: LengthUnit::Px },
    }
}

/// A coordinate of a point, vector or rectangle.
pub open spec fn field_of(v: Value, field: GeometryField) -> Option<Scalar> {
    match (v, field) {
        (Value::Point(p), GeometryField::X) => Some(p.x),
        (Value::Point(p), GeometryField::Y) => Some(p.y),
        (Value::Vec2(p), GeometryField::X) => Some(p.x),
        (Value::Vec2(p), GeometryField::Y) => Some(p.y),
        (Value::Rect(r), GeometryField::X) => Some(r.x),
        (Value::Rect(r), GeometryField::Y) => Some(r.y),
        (Value::Rect(r), GeometryField::Width) => Some(r.width),
        (Value::Rect(r), GeometryField::Height) => Some(r.height),
        _ => None,
    }
}

/// Whether two values are of one kind.
pub open spec fn same_kind(a: Value, b: Value) -> bool {
    crate::expr::ExprType::of(a) == crate::expr::ExprType::of(b)
}

/// Equality across text and enum values.
pub open spec fn loosely_equal(a: Value, b: Value) -> bool {
    match (a, b) {
        (Value::Str(x), Value::Enum(y)) => x == y,
        (Value::Enum(x), Value::Str(y)) => x == y,
        _ => a.same(b),
    }
}

pub open spec fn text_pair(a: Value, b: Value) -> bool {
    (a is Str && b is Enum) || (a is Enum && b is Str)
}

/// The outcome of a comparison.
pub open spec fn compared(at: int, op: CompareOp, a: Value, b: Value) -> Result<bool, Fault> {
    let equality = op == CompareOp::Eq || op == CompareOp::NotEq;
    if !same_kind(a, b) && !(equality && text_pair(a, b)) {
        Err(Fault::TypeMismatch(at, "compare"@))
    } else {
        match op {
            CompareOp::Eq => Ok(loosely_equal(a, b)),
            CompareOp::NotEq => Ok(!loosely_equal(a, b)),
            _ => match (a, b) {
                (Value::Number(x), Value::Number(y)) => Ok(
                    match op {
                        CompareOp::Lt => x.lt_spec(y),
                        CompareOp::Lte => x.le_spec(y),
                        CompareOp::Gt => y.lt_spec(x),
                        _ => y.le_spec(x),
                    },
                ),
                _ => Err(Fault::TypeMismatch(at, "compare"@)),
            },
        }
    }
}

/// Compares two values.
pub fn compare(at: usize, op: CompareOp, lhs: &MotionValue, rhs: &MotionValue) -> (r: Result<
    MotionValue,
    EvalError,
>)
    ensures
        match compared(at as int, op, lhs@, rhs@) {
            Ok(b) => eval_seen(r) == Ok::<Value, Fault>(Value::Bool(b)),
            Err(f) => eval_seen(r) == Err::<Value, Fault>(f),
        },
{
    let equality: bool = op == CompareOp::Eq || op == CompareOp::NotEq;
    let mixed: bool = match (lhs, rhs) {
        (MotionValue::Str(_), MotionValue::Enum(_)) => true,
        (MotionValue::Enum(_), MotionValue::Str(_)) => true,
        _ => false,
    };
    if crate::expr::ExprType::of_value(lhs) != crate::expr::ExprType::of_value(rhs) && !(equality
        && mixed) {
        return Err(EvalError::TypeMismatch { at, op: "compare" });
    }
    if equality {
        let equal: bool = match (lhs, rhs) {
            (MotionValue::Str(a), MotionValue::Enum(b)) => same_text(a.as_str(), b.as_str()),
            (MotionValue::Enum(a), MotionValue::Str(b)) => same_text(a.as_str(), b.as_str()),
            _ => lhs.equals(rhs),
        };
        return Ok(MotionValue::Bool(if op == CompareOp::Eq { equal } else { !equal }));
    }
    match (lhs, rhs) {
        (MotionValue::Number(x), MotionValue::Number(y)) => {
            let holds: bool = match op {
                CompareOp::Lt => x.lt(*y),
                CompareOp::Lte => x.le(*y),
                CompareOp::Gt => y.lt(*x),
                _ => y.le(*x),
            };
            Ok(MotionValue::Bool(holds))
        },
        _ => Err(EvalError::TypeMismatch { at, op: "compare" }),
    }
}

/// Position of the first segment from `from` on that holds an input, or the number of segments.
pub open spec fn segment_at(stops: Seq<InterpolateStop>, input: Scalar, from: int) -> int
    decreases stops.len() - from,
{
    if from < 0 || from >= stops.len() - 1 {
        stops.len() - 1
    } else if stops[from].input.le_spec(input) && input.lt_spec(stops[from + 1].input) {
        from
    } else {
        segment_at(stops, input, from + 1)
    }
}

/// Which stops an input falls between, and what happens outside them.
pub open spec fn interpolation(
    at: int,
    input: Scalar,
    stops: Seq<InterpolateStop>,
    easings: Seq<MotionEasing>,
    left: Extrapolation,
    right: Extrapolation,
) -> Plan {
    let n = stops.len() as int;
    if n < 2 || (easings.len() != 0 && easings.len() + 1 != n) {
        Plan::Fail(Fault::BadInterpolate(at))
    } else if input.le_spec(stops[0].input) {
        if left == Extrapolation::Clamp {
            Plan::Value(stops[0].output@)
        } else {
            Plan::Segment(stop_of(stops[0]), stop_of(stops[1]), input, None)
        }
    } else if stops[n - 1].input.le_spec(input) {
        if right == Extrapolation::Clamp {
            Plan::Value(stops[n - 1].output@)
        } else {
            Plan::Segment(stop_of(stops[n - 2]), stop_of(stops[n - 1]), input, None)
        }
    } else {
        let k = segment_at(stops, input, 0);
        if k >= n - 1 {
            Plan::Fail(Fault::BadInterpolate(at))
        } else {
            Plan::Segment(
                stop_of(stops[k]),
                stop_of(stops[k + 1]),
                input,
                if k < easings.len() { Some(easings[k]) } else { None },
            )
        }
    }
}

/// Values of operators.
pub open spec fn operator_plan(at: int, e: Expr, done: Seq<Value>, inputs: EvalInputs) -> Plan {
    match e {
        Expr::Add { lhs, rhs } => match pair(at, "add"@, done, lhs, rhs) {
            Ok((a, b)) => Plan::Ask(Task::Add(a, b), "add"@),
            Err(f) => Plan::Fail(f),
        },
        Expr::Sub { lhs, rhs } => match pair(at, "sub"@, done, lhs, rhs) {
            Ok((a, b)) => Plan::Ask(Task::Sub(a, b), "sub"@),
            Err(f) => Plan::Fail(f),
        },
        Expr::Mul { lhs, rhs } => match pair(at, "mul"@, done, lhs, rhs) {
            Ok((a, b)) => Plan::Ask(Task::Mul(a, b), "mul"@),
            Err(f) => Plan::Fail(f),
        },
        Expr::Div { lhs, rhs } => match number(at, "div"@, done, rhs) {
            Err(f) => Plan::Fail(f),
            Ok(b) => if b.eq_spec(num(ZERO)) {
                Plan::Fail(Fault::DivisionByZero(at))
            } else {
                match number(at, "div"@, done, lhs) {
                    Err(f) => Plan::Fail(f),
                    Ok(a) => Plan::Ask(Task::Div(a, b), "div"@),
                }
            },
        },
        Expr::Neg { input } => match number(at, "neg"@, done, input) {
            Err(f) => Plan::Fail(f),
            Ok(x) => Plan::Value(Value::Number(x.neg_spec())),
        },
        Expr::Compare { op, lhs, rhs } => match (operand(at, done, lhs), operand(at, done, rhs)) {
            (Err(f), _) => Plan::Fail(f),
            (Ok(_), Err(f)) => Plan::Fail(f),
            (Ok(a), Ok(b)) => match compared(at, op, a, b) {
                Ok(holds) => Plan::Value(Value::Bool(holds)),
                Err(f) => Plan::Fail(f),
            },
        },
        Expr::Select { condition, when_true, when_false } => match operand(at, done, condition) {
            Err(f) => Plan::Fail(f),
            Ok(Value::Bool(b)) => match operand(at, done, if b { when_true } else { when_false }) {
                Ok(v) => Plan::Value(v),
                Err(f) => Plan::Fail(f),
            },
            Ok(_) => Plan::Fail(Fault::TypeMismatch(at, "select"@)),
        },
        Expr::Template { parts } => Plan::Text(pieces(parts@, done, parts@.len())),
        Expr::MathUnary { op, input } => match number(at, "math"@, done, input) {
            Err(f) => Plan::Fail(f),
            Ok(x) => Plan::Ask(Task::MathUnary(op, x), "math"@),
        },
        Expr::MathBinary { op, lhs, rhs } => match numbers(at, "math"@, done, seq![lhs, rhs], 2) {
            Err(f) => Plan::Fail(f),
            Ok(n) => Plan::Ask(Task::MathBinary(op, n[0], n[1]), "math"@),
        },
        Expr::Noise1D { seed, x } => match number(at, "noise1d"@, done, x) {
            Err(f) => Plan::Fail(f),
            Ok(x) => Plan::Ask(Task::Noise1D(seed, x), "noise1d"@),
        },
        Expr::Noise2D { seed, x, y } => match numbers(at, "noise2d"@, done, seq![x, y], 2) {
            Err(f) => Plan::Fail(f),
            Ok(n) => Plan::Ask(Task::Noise2D(seed, n[0], n[1]), "noise2d"@),
        },
        Expr::FormatNumber { input, format } => match number(at, "formatNumber"@, done, input) {
            Err(f) => Plan::Fail(f),
            Ok(x) => Plan::Ask(Task::Format(x, format), "number formatting"@),
        },
        Expr::Spring { elapsed_frames, mass, stiffness, damping } => match number(
            at,
            "spring"@,
            done,
            elapsed_frames,
        ) {
            Err(f) => Plan::Fail(f),
            Ok(x) => if !inputs.ctx.fps.finite() || inputs.ctx.fps.le_spec(num(ZERO)) {
                Plan::Fail(Fault::TypeMismatch(at, "spring"@))
            } else {
                Plan::Ask(
                    Task::Spring(x, inputs.ctx.fps, mass, stiffness, damping),
                    "spring"@,
                )
            },
        },
        Expr::Interpolate { input, stops, easings, extrapolate_left, extrapolate_right } =>
            match number(at, "interpolate"@, done, input) {
                Err(f) => Plan::Fail(f),
                Ok(x) => interpolation(
                    at,
                    x,
                    stops@,
                    easings@,
                    extrapolate_left,
                    extrapolate_right,
                ),
            },
        _ => Plan::Fail(Fault::BadExpr(at, at)),
    }
}

/// The first `n` parts of a template with their values filled in.
pub open spec fn pieces(parts: Seq<TemplatePart>, done: Seq<Value>, n: nat) -> Seq<Piece>
    decreases n,
{
    if n == 0 {
        Seq::empty()
    } else {
        pieces(parts, done, (n - 1) as nat).push(
            match parts[n - 1] {
                TemplatePart::Text { value } => Piece::Text(value@),
                TemplatePart::Expr { expr } => if expr.0 < done.len() {
                    Piece::Token(done[expr.0 as int])
                } else {
                    Piece::Missing(expr.0 as int)
                },
            },
        )
    }
}

/// How the value of an expression comes about.
pub open spec fn plan(
    at: int,
    e: Expr,
    done: Seq<Value>,
    inputs: EvalInputs,
    layout: LayoutInputs,
) -> Plan {
    match e {
        Expr::Const { .. } => leaf_plan(at, e, inputs, layout),
        Expr::Context { .. } => leaf_plan(at, e, inputs, layout),
        Expr::Prop { .. } => leaf_plan(at, e, inputs, layout),
        Expr::Cue { .. } => leaf_plan(at, e, inputs, layout),
        Expr::NodeBounds { .. } => leaf_plan(at, e, inputs, layout),
        Expr::Project3D { .. } => leaf_plan(at, e, inputs, layout),
        Expr::Add { .. } => operator_plan(at, e, done, inputs),
        Expr::Sub { .. } => operator_plan(at, e, done, inputs),
        Expr::Mul { .. } => operator_plan(at, e, done, inputs),
        Expr::Div { .. } => operator_plan(at, e, done, inputs),
        Expr::Neg { .. } => operator_plan(at, e, done, inputs),
        Expr::Compare { .. } => operator_plan(at, e, done, inputs),
        Expr::Select { .. } => operator_plan(at, e, done, inputs),
        Expr::Template { .. } => operator_plan(at, e, done, inputs),
        Expr::MathUnary { .. } => operator_plan(at, e, done, inputs),
        Expr::MathBinary { .. } => operator_plan(at, e, done, inputs),
        Expr::Noise1D { .. } => operator_plan(at, e, done, inputs),
        Expr::Noise2D { .. } => operator_plan(at, e, done, inputs),
        Expr::FormatNumber { .. } => operator_plan(at, e, done, inputs),
        Expr::Spring { .. } => operator_plan(at, e, done, inputs),
        Expr::Interpolate { .. } => operator_plan(at, e, done, inputs),
        _ => geometry_plan(at, e, done),
    }
}

/// The host's answer as a result of expression `at`.
pub open spec fn settled(at: int, op: Seq<char>, r: Result<Value, KernelError>) -> Result<
    Value,
    Fault,
> {
    match r {
        Ok(v) => Ok(v),
        Err(KernelError::Geometry(g)) => Err(Fault::BadGeometry(at, g)),
        Err(KernelError::Domain) => Err(Fault::BuiltinDomain(at, op)),
    }
}

/// Whether two values can be blended: one kind, and one unit for lengths.
pub open spec fn blendable(a: Value, b: Value) -> bool {
    match (a, b) {
        (Value::Number(_), Value::Number(_)) => true,
        (Value::Length(x), Value::Length(y)) => x.unit == y.unit,
        (Value::Length2(x), Value::Length2(y)) => x.x.unit == y.x.unit && x.y.unit == y.y.unit,
        (Value::Angle(_), Value::Angle(_)) => true,
        (Value::Color(_), Value::Color(_)) => true,
        (Value::Vec2(_), Value::Vec2(_)) => true,
        (Value::Point(_), Value::Point(_)) => true,
        (Value::Rect(_), Value::Rect(_)) => true,
        (Value::PathData(_), Value::PathData(_)) => true,
        _ => false,
    }
}

/// A value that must be finite.
pub open spec fn kept_finite(at: int, op: Seq<char>, r: Result<Value, Fault>) -> Result<Value, Fault> {
    match r {
        Ok(v) => if v.finite() { Ok(v) } else { Err(Fault::NonFinite(at, op)) },
        Err(f) => Err(f),
    }
}

/// Whether `r` is what a segment gives at a fraction of the way between its stops.
pub open spec fn blended_at<K: Fn(&Kernel) -> Result<MotionValue, KernelError>>(
    host: K,
    at: int,
    a: Stop,
    b: Stop,
    t: Option<Scalar>,
    r: Result<Value, Fault>,
) -> bool {
    match t {
        None => r == Err::<Value, Fault>(Fault::BadInterpolate(at)),
        Some(t) => exists|out: Result<Value, Fault>| #[trigger]
            blend_gives(host, at, a.output, b.output, t, out) && r == kept_finite(
                at,
                "interpolate"@,
                out,
            ),
    }
}

/// Whether `r` is what a segment gives once the distance of its stops is known.
pub open spec fn segment_step<K: Fn(&Kernel) -> Result<MotionValue, KernelError>>(
    host: K,
    at: int,
    a: Stop,
    b: Stop,
    input: Scalar,
    easing: Option<MotionEasing>,
    span: Option<Scalar>,
    r: Result<Value, Fault>,
) -> bool {
    match span {
        None => r == Err::<Value, Fault>(Fault::BadInterpolate(at)),
        Some(span) => if span.le_spec(num(ZERO)) || !span.finite() {
            r == Err::<Value, Fault>(Fault::BadInterpolate(at))
        } else if !blendable(a.output, b.output) {
            r == Err::<Value, Fault>(Fault::TypeMismatch(at, "interpolate"@))
        } else {
            exists|t: Option<Scalar>| #[trigger]
                number_told(host, Task::Fraction(a.input, span, input, easing), t) && blended_at(
                    host,
                    at,
                    a,
                    b,
                    t,
                    r,
                )
        },
    }
}

/// Whether `r` is a possible result of a segment.
pub open spec fn segment_gives<K: Fn(&Kernel) -> Result<MotionValue, KernelError>>(
    host: K,
    at: int,
    a: Stop,
    b: Stop,
    input: Scalar,
    easing: Option<MotionEasing>,
    r: Result<Value, Fault>,
) -> bool {
    exists|span: Option<Scalar>| #[trigger]
        number_told(host, Task::Sub(b.input, a.input), span) && segment_step(
            host,
            at,
            a,
            b,
            input,
            easing,
            span,
            r,
        )
}

/// The first `n` texts in a row.
pub open spec fn concat(texts: Seq<Seq<char>>, n: nat) -> Seq<char>
    decreases n,
{
    if n == 0 { Seq::empty() } else { concat(texts, (n - 1) as nat) + texts[n - 1] }
}

/// Whether a text writes one piece of a template.
pub open spec fn writes_piece<T: Fn(&MotionValue) -> String>(
    tokens: T,
    piece: Piece,
    text: Seq<char>,
) -> bool {
    match piece {
        Piece::Text(s) => text == s,
        Piece::Token(v) => token_written(tokens, v, text),
        Piece::Missing(_) => false,
    }
}

/// Whether `texts` writes the first pieces of a template without exceeding its budget on the way.
pub open spec fn writes<T: Fn(&MotionValue) -> String>(
    tokens: T,
    pieces: Seq<Piece>,
    texts: Seq<Seq<char>>,
) -> bool {
    &&& texts.len() <= pieces.len()
    &&& forall|i: int| 0 <= i < texts.len() ==> writes_piece(tokens, pieces[i], #[trigger] texts[i])
}

pub open spec fn fits(texts: Seq<Seq<char>>, n: int) -> bool {
    forall|m: int| 0 <= m <= n ==> byte_len(#[trigger] concat(texts, m as nat)) <= MAX_TEMPLATE_OUTPUT_BYTES
}

/// Whether `r` is a possible result of a template.
pub open spec fn template_gives<T: Fn(&MotionValue) -> String>(
    tokens: T,
    at: int,
    pieces: Seq<Piece>,
    r: Result<Value, Fault>,
) -> bool {
    exists|texts: Seq<Seq<char>>| #[trigger]
        writes(tokens, pieces, texts) && {
            let n = texts.len() as int;
            match r {
                Ok(Value::Str(s)) => n == pieces.len() && fits(texts, n) && s == concat(
                    texts,
                    n as nat,
                ),
                Err(Fault::BadExpr(a, id)) => a == at && n < pieces.len() && fits(texts, n)
                    && pieces[n] == Piece::Missing(id),
                Err(Fault::TemplateTooLong(a)) => a == at && n > 0 && fits(texts, n - 1)
                    && byte_len(concat(texts, n as nat)) > MAX_TEMPLATE_OUTPUT_BYTES,
                _ => false,
            }
        }
}

/// Whether `r` is a possible result of an expression, given what the host can answer.
pub open spec fn gives<
    K: Fn(&Kernel) -> Result<MotionValue, KernelError>,
    T: Fn(&MotionValue) -> String,
>(host: K, tokens: T, at: int, plan: Plan, r: Result<Value, Fault>) -> bool {
    match plan {
        Plan::Value(v) => r == Ok::<Value, Fault>(v),
        Plan::Fail(f) => r == Err::<Value, Fault>(f),
        Plan::Ask(task, op) => exists|out: Result<Value, KernelError>| #[trigger]
            answers(host, task, out) && r == settled(at, op, out),
        Plan::Segment(a, b, input, easing) => segment_gives(host, at, a, b, input, easing, r),
        Plan::Text(pieces) => template_gives(tokens, at, pieces, r),
    }
}

/// The values of a list.
pub open spec fn values_of(v: Seq<MotionValue>) -> Seq<Value> {
    v.map_values(|x: MotionValue| x@)
}

fn child<'a>(at: usize, done: &'a Vec<MotionValue>, id: ExprId) -> (r: Result<
    &'a MotionValue,
    EvalError,
>)
    ensures
        match r {
            Ok(v) => operand(at as int, values_of(done@), id) == Ok::<Value, Fault>(v@),
            Err(e) => operand(at as int, values_of(done@), id) == Err::<Value, Fault>(e@),
        },
{
    if (id.0 as usize) < done.len() {
        Ok(&done[id.0 as usize])
    } else {
        Err(EvalError::BadExpr { at, referenced: id.0 as usize })
    }
}

fn as_number(at: usize, op: &'static str, value: &MotionValue) -> (r: Result<Scalar, EvalError>)
    ensures
        match r {
            Ok(x) => number_of(at as int, op@, value@) == Ok::<Scalar, Fault>(x),
            Err(e) => number_of(at as int, op@, value@) == Err::<Scalar, Fault>(e@),
        },
{
    match value {
        MotionValue::Number(x) => Ok(*x),
        _ => Err(EvalError::TypeMismatch { at, op }),
    }
}

fn number_at(at: usize, op: &'static str, done: &Vec<MotionValue>, id: ExprId) -> (r: Result<
    Scalar,
    EvalError,
>)
    ensures
        match r {
            Ok(x) => number(at as int, op@, values_of(done@), id) == Ok::<Scalar, Fault>(x),
            Err(e) => number(at as int, op@, values_of(done@), id) == Err::<Scalar, Fault>(e@),
        },
{
    match child(at, done, id) {
        Ok(v) => as_number(at, op, v),
        Err(e) => Err(e),
    }
}

fn numbers_at(at: usize, op: &'static str, done: &Vec<MotionValue>, ids: &Vec<ExprId>) -> (r: Result<
    Vec<Scalar>,
    EvalError,
>)
    ensures
        match r {
            Ok(v) => numbers(at as int, op@, values_of(done@), ids@, ids@.len()) == Ok::<
                Seq<Scalar>,
                Fault,
            >(v@) && v@.len() == ids@.len(),
            Err(e) => numbers(at as int, op@, values_of(done@), ids@, ids@.len()) == Err::<
                Seq<Scalar>,
                Fault,
            >(e@),
        },
{
    let mut out: Vec<Scalar> = Vec::new();
    let mut k: usize = 0;
    while k < ids.len()
        invariant
            k <= ids@.len(),
            out@.len() == k,
            numbers(at as int, op@, values_of(done@), ids@, k as nat) == Ok::<Seq<Scalar>, Fault>(
                out@,
            ),
        decreases ids@.len() - k,
    {
        match number_at(at, op, done, ids[k]) {
            Ok(x) => {
                out.push(x);
            },
            Err(e) => {
                proof {
                    numbers_stuck(
                        at as int,
                        op@,
                        values_of(done@),
                        ids@,
                        (k + 1) as nat,
                        ids@.len(),
                        e@,
                    );
                }
                return Err(e);
            },
        }
        k = k + 1;
    }
    Ok(out)
}

proof fn numbers_stuck(
    at: int,
    op: Seq<char>,
    done: Seq<Value>,
    ids: Seq<ExprId>,
    m: nat,
    n: nat,
    f: Fault,
)
    requires
        m <= n,
        numbers(at, op, done, ids, m) == Err::<Seq<Scalar>, Fault>(f),
    ensures
        numbers(at, op, done, ids, n) == Err::<Seq<Scalar>, Fault>(f),
    decreases n - m,
{
    if m < n {
        numbers_stuck(at, op, done, ids, m, (n - 1) as nat, f);
    }
}

fn point_at(at: usize, op: &'static str, done: &Vec<MotionValue>, id: ExprId) -> (r: Result<
    Point,
    EvalError,
>)
    ensures
        match r {
            Ok(p) => point(at as int, op@, values_of(done@), id) == Ok::<Point, Fault>(p),
            Err(e) => point(at as int, op@, values_of(done@), id) == Err::<Point, Fault>(e@),
        },
{
    match child(at, done, id) {
        Ok(MotionValue::Point(p)) => Ok(*p),
        Ok(_) => Err(EvalError::TypeMismatch { at, op }),
        Err(e) => Err(e),
    }
}

fn points_at(at: usize, op: &'static str, done: &Vec<MotionValue>, ids: &Vec<ExprId>) -> (r: Result<
    Vec<Point>,
    EvalError,
>)
    ensures
        match r {
            Ok(v) => points(at as int, op@, values_of(done@), ids@, ids@.len()) == Ok::<
                Seq<Point>,
                Fault,
            >(v@) && v@.len() == ids@.len(),
            Err(e) => points(at as int, op@, values_of(done@), ids@, ids@.len()) == Err::<
                Seq<Point>,
                Fault,
            >(e@),
        },
{
    let mut out: Vec<Point> = Vec::new();
    let mut k: usize = 0;
    while k < ids.len()
        invariant
            k <= ids@.len(),
            out@.len() == k,
            points(at as int, op@, values_of(done@), ids@, k as nat) == Ok::<Seq<Point>, Fault>(
                out@,
            ),
        decreases ids@.len() - k,
    {
        match point_at(at, op, done, ids[k]) {
            Ok(x) => {
                out.push(x);
            },
            Err(e) => {
                proof {
                    points_stuck(
                        at as int,
                        op@,
                        values_of(done@),
                        ids@,
                        (k + 1) as nat,
                        ids@.len(),
                        e@,
                    );
                }
                return Err(e);
            },
        }
        k = k + 1;
    }
    Ok(out)
}

proof fn points_stuck(
    at: int,
    op: Seq<char>,
    done: Seq<Value>,
    ids: Seq<ExprId>,
    m: nat,
    n: nat,
    f: Fault,
)
    requires
        m <= n,
        points(at, op, done, ids, m) == Err::<Seq<Point>, Fault>(f),
    ensures
        points(at, op, done, ids, n) == Err::<Seq<Point>, Fault>(f),
    decreases n - m,
{
    if m < n {
        points_stuck(at, op, done, ids, m, (n - 1) as nat, f);
    }
}

fn path_at<'a>(at: usize, op: &'static str, done: &'a Vec<MotionValue>, id: ExprId) -> (r: Result<
    &'a PathData,
    EvalError,
>)
    ensures
        match r {
            Ok(p) => path(at as int, op@, values_of(done@), id) == Ok::<Path, Fault>(p@),
            Err(e) => path(at as int, op@, values_of(done@), id) == Err::<Path, Fault>(e@),
        },
{
    match child(at, done, id) {
        Ok(MotionValue::PathData(p)) => Ok(p),
        Ok(_) => Err(EvalError::TypeMismatch { at, op }),
        Err(e) => Err(e),
    }
}

fn path_number_at<'a>(
    at: usize,
    op: &'static str,
    done: &'a Vec<MotionValue>,
    a: ExprId,
    b: ExprId,
) -> (r: Result<(&'a PathData, Scalar), EvalError>)
    ensures
        match r {
            Ok(p) => path_and_number(at as int, op@, values_of(done@), a, b) == Ok::<
                (Path, Scalar),
                Fault,
            >((p.0@, p.1)),
            Err(e) => path_and_number(at as int, op@, values_of(done@), a, b) == Err::<
                (Path, Scalar),
                Fault,
            >(e@),
        },
{
    match path_at(at, op, done, a) {
        Err(e) => Err(e),
        Ok(p) => match number_at(at, op, done, b) {
            Err(e) => Err(e),
            Ok(x) => Ok((p, x)),
        },
    }
}

fn pair_at(
    at: usize,
    op: &'static str,
    done: &Vec<MotionValue>,
    a: ExprId,
    b: ExprId,
) -> (r: Result<(Scalar, Scalar), EvalError>)
    ensures
        match r {
            Ok(p) => pair(at as int, op@, values_of(done@), a, b) == Ok::<(Scalar, Scalar), Fault>(
                p,
            ),
            Err(e) => pair(at as int, op@, values_of(done@), a, b) == Err::<
                (Scalar, Scalar),
                Fault,
            >(e@),
        },
{
    let x = match child(at, done, a) {
        Ok(v) => v,
        Err(e) => {
            return Err(e);
        },
    };
    let y = match child(at, done, b) {
        Ok(v) => v,
        Err(e) => {
            return Err(e);
        },
    };
    match as_number(at, op, x) {
        Err(e) => Err(e),
        Ok(x) => match as_number(at, op, y) {
            Err(e) => Err(e),
            Ok(y) => Ok((x, y)),
        },
    }
}

fn ids2(a: ExprId, b: ExprId) -> (r: Vec<ExprId>)
    ensures
        r@ == seq![a, b],
{
    let mut v: Vec<ExprId> = Vec::new();
    v.push(a);
    v.push(b);
    assert(v@ =~= seq![a, b]);
    v
}

fn ids3(a: ExprId, b: ExprId, c: ExprId) -> (r: Vec<ExprId>)
    ensures
        r@ == seq![a, b, c],
{
    let mut v = ids2(a, b);
    v.push(c);
    assert(v@ =~= seq![a, b, c]);
    v
}

fn ids4(a: ExprId, b: ExprId, c: ExprId, d: ExprId) -> (r: Vec<ExprId>)
    ensures
        r@ == seq![a, b, c, d],
{
    let mut v = ids3(a, b, c);
    v.push(d);
    assert(v@ =~= seq![a, b, c, d]);
    v
}

/// Asks the host and reports its failure for expression `at`.
fn ask<K: Fn(&Kernel) -> Result<MotionValue, KernelError>>(
    host: &K,
    at: usize,
    op: &'static str,
    kernel: Kernel,
) -> (r: Result<MotionValue, EvalError>)
    requires
        forall|k: Kernel| call_requires(*host, (&k,)),
    ensures
        exists|out: Result<Value, KernelError>| #[trigger]
            answers(*host, kernel@, out) && eval_seen(r) == settled(at as int, op@, out),
{
    let out = host(&kernel);
    assert(call_ensures(*host, (&kernel,), out));
    assert(answers(*host, kernel@, answer_seen(out)));
    match out {
        Ok(v) => Ok(v),
        Err(KernelError::Geometry(reason)) => Err(EvalError::BadGeometry { at, reason }),
        Err(KernelError::Domain) => Err(EvalError::BuiltinDomain { at, op }),
    }
}

fn path_value(at: usize, r: Result<PathData, GeometryError>) -> (out: Result<MotionValue, EvalError>)
    ensures
        match planned_path(at as int, path_seen(r)) {
            Plan::Value(v) => eval_seen(out) == Ok::<Value, Fault>(v),
            Plan::Fail(f) => eval_seen(out) == Err::<Value, Fault>(f),
            _ => false,
        },
{
    match r {
        Ok(p) => Ok(MotionValue::PathData(p)),
        Err(reason) => Err(EvalError::BadGeometry { at, reason }),
    }
}

fn find_projected(anchors: &Vec<ProjectedAnchor>, scene: &str, anchor: &str) -> (r: Option<Point>)
    ensures
        r == projected_at(anchors@, scene@, anchor@, anchors@.len()),
{
    let mut i: usize = 0;
    while i < anchors.len()
        invariant
            i <= anchors@.len(),
            projected_at(anchors@, scene@, anchor@, i as nat) is None,
        decreases anchors@.len() - i,
    {
        if same_text(anchors[i].scene_key.as_str(), scene) && same_text(
            anchors[i].anchor_key.as_str(),
            anchor,
        ) {
            proof {
                projected_settles(anchors@, scene@, anchor@, i as nat, anchors@.len());
            }
            return Some(anchors[i].point);
        }
        i = i + 1;
    }
    None
}

proof fn projected_settles(
    anchors: Seq<ProjectedAnchor>,
    scene: Seq<char>,
    anchor: Seq<char>,
    m: nat,
    n: nat,
)
    requires
        m < n <= anchors.len(),
        anchors[m as int].scene_key@ == scene,
        anchors[m as int].anchor_key@ == anchor,
        projected_at(anchors, scene, anchor, m) is None,
    ensures
        projected_at(anchors, scene, anchor, n) == Some(anchors[m as int].point),
    decreases n - m,
{
    if m + 1 < n {
        projected_settles(anchors, scene, anchor, m, (n - 1) as nat);
    }
}

fn eval_leaf(at: usize, expr: &Expr, inputs: &EvalInputs, layout: &LayoutInputs) -> (r: Result<
    MotionValue,
    EvalError,
>)
    requires
        expr is Const || expr is Context || expr is Prop || expr is Cue || expr is NodeBounds
            || expr is Project3D,
    ensures
        match leaf_plan(at as int, *expr, *inputs, *layout) {
            Plan::Value(v) => eval_seen(r) == Ok::<Value, Fault>(v),
            Plan::Fail(f) => eval_seen(r) == Err::<Value, Fault>(f),
            _ => false,
        },
{
    match expr {
        Expr::Const { value } => Ok(value.duplicate()),
        Expr::Context { input } => match context_value(
            *input,
            inputs.ctx,
            inputs.unit,
            inputs.viewport,
        ) {
            Some(v) => Ok(v),
            None => match input {
                ContextInput::ViewportWidth | ContextInput::ViewportHeight => Err(
                    EvalError::ViewportUnavailable { at },
                ),
                _ => Err(EvalError::UnitOutsidePerUnit { at }),
            },
        },
        Expr::Prop { name } => match lookup(&inputs.props.values, name.as_str()) {
            Some(v) => Ok(v.duplicate()),
            None => Err(EvalError::MissingProp { name: name.clone() }),
        },
        Expr::NodeBounds { key } => match layout.bounds {
            None => Err(EvalError::BoundsOutsidePostLayout { at }),
            Some(bounds) => match lookup(bounds, key.as_str()) {
                Some(r) => Ok(MotionValue::Rect(*r)),
                None => Err(EvalError::MissingBoundsTarget { key: key.clone() }),
            },
        },
        Expr::Project3D { scene_key, anchor_key } => match layout.projected {
            None => Err(EvalError::Project3DOutsidePostLayout { at }),
            Some(anchors) => match find_projected(
                anchors,
                scene_key.as_str(),
                anchor_key.as_str(),
            ) {
                Some(p) => Ok(MotionValue::Point(p)),
                None => Err(
                    EvalError::MissingProject3DTarget {
                        scene_key: scene_key.clone(),
                        anchor_key: anchor_key.clone(),
                    },
                ),
            },
        },
        Expr::Cue { name, field } => match lookup(inputs.signals, name.as_str()) {
            None => Err(EvalError::MissingCue { name: name.clone() }),
            Some(cue) => Ok(
                match field {
                    CueField::Active => MotionValue::Bool(cue.active),
                    CueField::Progress => MotionValue::Number(cue.progress),
                    CueField::Enter => MotionValue::Number(cue.enter),
                    CueField::Hold => MotionValue::Number(cue.hold),
                    CueField::Exit => MotionValue::Number(cue.exit),
                    CueField::LocalFrame => MotionValue::Number(
                        Scalar::from_i32(cue.local_frame),
                    ),
                },
            ),
        },
        _ => Err(EvalError::BadExpr { at, referenced: at }),
    }
}

fn eval_field(value: &MotionValue, field: GeometryField) -> (r: Option<Scalar>)
    ensures
        r == field_of(value@, field),
{
    match (value, field) {
        (MotionValue::Point(p), GeometryField::X) => Some(p.x),
        (MotionValue::Point(p), GeometryField::Y) => Some(p.y),
        (MotionValue::Vec2(p), GeometryField::X) => Some(p.x),
        (MotionValue::Vec2(p), GeometryField::Y) => Some(p.y),
        (MotionValue::Rect(r), GeometryField::X) => Some(r.x),
        (MotionValue::Rect(r), GeometryField::Y) => Some(r.y),
        (MotionValue::Rect(r), GeometryField::Width) => Some(r.width),
        (MotionValue::Rect(r), GeometryField::Height) => Some(r.height),
        _ => None,
    }
}

fn eval_path<K: Fn(&Kernel) -> Result<MotionValue, KernelError>, T: Fn(&MotionValue) -> String>(
    host: &K,
    tokens: &T,
    at: usize,
    expr: &Expr,
    done: &Vec<MotionValue>,
) -> (r: Result<MotionValue, EvalError>)
    requires
        forall|k: Kernel| call_requires(*host, (&k,)),
        expr is MakePoint || expr is MakeRect || expr is PathLine || expr is PathTemplate
            || expr is PathCubic || expr is PathArc || expr is PathArea || expr is PathTrajectory,
    ensures
        gives(
            *host,
            *tokens,
            at as int,
            geometry_plan(at as int, *expr, values_of(done@)),
            eval_seen(r),
        ),
{
    match expr {
        Expr::MakePoint { x, y } => match numbers_at(at, "point", done, &ids2(*x, *y)) {
            Ok(n) => Ok(MotionValue::Point(Point { x: n[0], y: n[1] })),
            Err(e) => Err(e),
        },
        Expr::MakeRect { x, y, width, height } => match numbers_at(
            at,
            "rect",
            done,
            &ids4(*x, *y, *width, *height),
        ) {
            Ok(n) => Ok(
                MotionValue::Rect(Rect { x: n[0], y: n[1], width: n[2], height: n[3] }),
            ),
            Err(e) => Err(e),
        },
        Expr::PathLine { points: ids } => match points_at(at, "line", done, ids) {
            Err(e) => Err(e),
            Ok(p) => path_value(at, PathData::line(p)),
        },
        Expr::PathTemplate { verbs, points: ids } => match points_at(
            at,
            "pathTemplate",
            done,
            ids,
        ) {
            Err(e) => Err(e),
            Ok(p) => path_value(at, PathData::new(copy_verbs(verbs), p)),
        },
        Expr::PathCubic { from, control_1, control_2, to } => match points_at(
            at,
            "cubic",
            done,
            &ids4(*from, *control_1, *control_2, *to),
        ) {
            Err(e) => Err(e),
            Ok(p) => path_value(at, PathData::cubic(p[0], p[1], p[2], p[3])),
        },
        Expr::PathArc { center, radius, start_angle, end_angle } => match point_at(
            at,
            "arc",
            done,
            *center,
        ) {
            Err(e) => Err(e),
            Ok(c) => match numbers_at(at, "arc", done, &ids3(*radius, *start_angle, *end_angle)) {
                Err(e) => Err(e),
                Ok(n) => ask(
                    host,
                    at,
                    "arc",
                    Kernel::Arc { center: c, radius: n[0], start: n[1], end: n[2] },
                ),
            },
        },
        Expr::PathArea { path: p, baseline } => match path_number_at(
            at,
            "area",
            done,
            *p,
            *baseline,
        ) {
            Err(e) => Err(e),
            Ok(v) => path_value(at, v.0.area(v.1)),
        },
        Expr::PathTrajectory { frames, frame } => {
            if frames.len() == 0 {
                return Err(
                    EvalError::BadGeometry { at, reason: GeometryError::BadTrajectory },
                );
            }
            match number_at(at, "pathTrajectory", done, *frame) {
                Err(e) => Err(e),
                Ok(x) => {
                    let k: usize = x.floor_at_most(frames.len() - 1);
                    proof {
                        floor_is_natural(x);
                    }
                    Ok(MotionValue::PathData(frames[k].duplicate()))
                },
            }
        },
        _ => Err(EvalError::BadExpr { at, referenced: at }),
    }
}

proof fn floor_is_natural(x: Scalar)
    ensures
        x.floor_int() >= 0,
{
    let r = x.floor_int();
    let field = x.magnitude() / (crate::scalar::EXPONENT_STEP as int);
    let whole = crate::scalar::EXPONENT_STEP + x.magnitude() % (crate::scalar::EXPONENT_STEP as int);
    if field >= 1023 {
        if field <= 1075 {
            let p = vstd::arithmetic::power2::pow2((1075 - field) as nat) as int;
            vstd::arithmetic::power2::lemma_pow2_pos((1075 - field) as nat);
            assert(whole / p >= 0) by (nonlinear_arith)
                requires
                    whole >= 0,
                    p > 0,
            ;
        } else {
            let p = vstd::arithmetic::power2::pow2((field - 1075) as nat) as int;
            assert(whole * p >= 0) by (nonlinear_arith)
                requires
                    whole >= 0,
                    p >= 0,
            ;
        }
    }
}

fn eval_sample<K: Fn(&Kernel) -> Result<MotionValue, KernelError>, T: Fn(&MotionValue) -> String>(
    host: &K,
    tokens: &T,
    at: usize,
    expr: &Expr,
    done: &Vec<MotionValue>,
) -> (r: Result<MotionValue, EvalError>)
    requires
        forall|k: Kernel| call_requires(*host, (&k,)),
        expr is PathOffset || expr is PathMorph || expr is PathPointAt || expr is PathTangentAt
            || expr is PathAngleAt || expr is PathLength || expr is GeometryField
            || expr is ToLength2,
    ensures
        gives(
            *host,
            *tokens,
            at as int,
            geometry_plan(at as int, *expr, values_of(done@)),
            eval_seen(r),
        ),
{
    match expr {
        Expr::PathOffset { path: p, distance } => match path_number_at(
            at,
            "offsetPath",
            done,
            *p,
            *distance,
        ) {
            Err(e) => Err(e),
            Ok(v) => ask(
                host,
                at,
                "offsetPath",
                Kernel::Offset { path: v.0.duplicate(), distance: v.1 },
            ),
        },
        Expr::PathMorph { from, to, progress } => match path_at(at, "morphPath", done, *from) {
            Err(e) => Err(e),
            Ok(a) => match path_number_at(at, "morphPath", done, *to, *progress) {
                Err(e) => Err(e),
                Ok(v) => ask(
                    host,
                    at,
                    "morphPath",
                    Kernel::Morph { from: a.duplicate(), to: v.0.duplicate(), progress: v.1 },
                ),
            },
        },
        Expr::PathPointAt { path: p, progress } => match path_number_at(
            at,
            "pointAt",
            done,
            *p,
            *progress,
        ) {
            Err(e) => Err(e),
            Ok(v) => ask(
                host,
                at,
                "pointAt",
                Kernel::PointAt { path: v.0.duplicate(), progress: v.1 },
            ),
        },
        Expr::PathTangentAt { path: p, progress } => match path_number_at(
            at,
            "tangentAt",
            done,
            *p,
            *progress,
        ) {
            Err(e) => Err(e),
            Ok(v) => ask(
                host,
                at,
                "tangentAt",
                Kernel::TangentAt { path: v.0.duplicate(), progress: v.1 },
            ),
        },
        Expr::PathAngleAt { path: p, progress } => match path_number_at(
            at,
            "motionPath",
            done,
            *p,
            *progress,
        ) {
            Err(e) => Err(e),
            Ok(v) => ask(
                host,
                at,
                "motionPath",
                Kernel::AngleAt { path: v.0.duplicate(), progress: v.1 },
            ),
        },
        Expr::PathLength { path: p } => match path_at(at, "pathLength", done, *p) {
            Err(e) => Err(e),
            Ok(p) => ask(host, at, "pathLength", Kernel::Length { path: p.duplicate() }),
        },
        Expr::GeometryField { input, field } => match child(at, done, *input) {
            Err(e) => Err(e),
            Ok(v) => match eval_field(v, *field) {
                Some(x) => Ok(MotionValue::Number(x)),
                None => Err(EvalError::TypeMismatch { at, op: "geometry field" }),
            },
        },
        Expr::ToLength2 { input } => match child(at, done, *input) {
            Err(e) => Err(e),
            Ok(MotionValue::Length2(l)) => Ok(MotionValue::Length2(*l)),
            Ok(MotionValue::Point(p)) => Ok(MotionValue::Length2(Length2::px(p.x, p.y))),
            Ok(MotionValue::Vec2(p)) => Ok(MotionValue::Length2(Length2::px(p.x, p.y))),
            Ok(_) => Err(EvalError::TypeMismatch { at, op: "length-pair conversion" }),
        },
        _ => Err(EvalError::BadExpr { at, referenced: at }),
    }
}

fn can_blend(a: &MotionValue, b: &MotionValue) -> (r: bool)
    ensures
        r == blendable(a@, b@),
{
    match (a, b) {
        (MotionValue::Number(_), MotionValue::Number(_)) => true,
        (MotionValue::Length(x), MotionValue::Length(y)) => x.unit == y.unit,
        (MotionValue::Length2(x), MotionValue::Length2(y)) => x.x.unit == y.x.unit && x.y.unit
            == y.y.unit,
        (MotionValue::Angle(_), MotionValue::Angle(_)) => true,
        (MotionValue::Color(_), MotionValue::Color(_)) => true,
        (MotionValue::Vec2(_), MotionValue::Vec2(_)) => true,
        (MotionValue::Point(_), MotionValue::Point(_)) => true,
        (MotionValue::Rect(_), MotionValue::Rect(_)) => true,
        (MotionValue::PathData(_), MotionValue::PathData(_)) => true,
        _ => false,
    }
}

/// Blends between two stops. The host measures their distance and does the blending.
pub fn interpolate_segment<K: Fn(&Kernel) -> Result<MotionValue, KernelError>>(
    host: &K,
    at: usize,
    input: Scalar,
    lhs: &InterpolateStop,
    rhs: &InterpolateStop,
    easing: Option<MotionEasing>,
) -> (r: Result<MotionValue, EvalError>)
    requires
        forall|k: Kernel| call_requires(*host, (&k,)),
    ensures
        segment_gives(
            *host,
            at as int,
            stop_of(*lhs),
            stop_of(*rhs),
            input,
            easing,
            eval_seen(r),
        ),
{
    let ghost a = stop_of(*lhs);
    let ghost b = stop_of(*rhs);
    let span = ask_number(host, &Kernel::Sub { a: rhs.input, b: lhs.input });
    assert(number_told(*host, Task::Sub(b.input, a.input), span));
    let span = match span {
        Some(x) => x,
        None => {
            return Err(EvalError::BadInterpolate { at });
        },
    };
    if span.le(Scalar::from_bits(ZERO)) || !span.is_finite() {
        return Err(EvalError::BadInterpolate { at });
    }
    if !can_blend(&lhs.output, &rhs.output) {
        return Err(EvalError::TypeMismatch { at, op: "interpolate" });
    }
    let t = ask_number(host, &Kernel::Fraction { start: lhs.input, span, input, easing });
    assert(number_told(*host, Task::Fraction(a.input, span, input, easing), t));
    let r: Result<MotionValue, EvalError> = match t {
        None => Err(EvalError::BadInterpolate { at }),
        Some(t) => {
            let out = blend(host, at, &lhs.output, &rhs.output, t);
            let ghost told = eval_seen(out);
            assert(blend_gives(*host, at as int, a.output, b.output, t, told));
            match out {
                Ok(v) => if v.is_finite() {
                    Ok(v)
                } else {
                    Err(EvalError::NonFinite { at, op: "interpolate" })
                },
                Err(e) => Err(e),
            }
        },
    };
    assert(blended_at(*host, at as int, a, b, t, eval_seen(r)));
    assert(segment_step(*host, at as int, a, b, input, easing, Some(span), eval_seen(r)));
    r
}

fn eval_interpolate<
    K: Fn(&Kernel) -> Result<MotionValue, KernelError>,
    T: Fn(&MotionValue) -> String,
>(
    host: &K,
    tokens: &T,
    at: usize,
    input: Scalar,
    stops: &Vec<InterpolateStop>,
    easings: &Vec<MotionEasing>,
    left: Extrapolation,
    right: Extrapolation,
) -> (r: Result<MotionValue, EvalError>)
    requires
        forall|k: Kernel| call_requires(*host, (&k,)),
    ensures
        gives(
            *host,
            *tokens,
            at as int,
            interpolation(at as int, input, stops@, easings@, left, right),
            eval_seen(r),
        ),
{
    let n: usize = stops.len();
    if n < 2 || (easings.len() != 0 && easings.len() != n - 1) {
        return Err(EvalError::BadInterpolate { at });
    }
    if input.le(stops[0].input) {
        return match left {
            Extrapolation::Clamp => Ok(stops[0].output.duplicate()),
            Extrapolation::Extend => interpolate_segment(
                host,
                at,
                input,
                &stops[0],
                &stops[1],
                None,
            ),
        };
    }
    if stops[n - 1].input.le(input) {
        return match right {
            Extrapolation::Clamp => Ok(stops[n - 1].output.duplicate()),
            Extrapolation::Extend => interpolate_segment(
                host,
                at,
                input,
                &stops[n - 2],
                &stops[n - 1],
                None,
            ),
        };
    }
    let mut k: usize = 0;
    while k < n - 1 && !(stops[k].input.le(input) && input.lt(stops[k + 1].input))
        invariant
            n == stops@.len(),
            n >= 2,
            k <= n - 1,
            segment_at(stops@, input, 0) == segment_at(stops@, input, k as int),
        decreases n - k,
    {
        k = k + 1;
    }
    if k >= n - 1 {
        return Err(EvalError::BadInterpolate { at });
    }
    let easing: Option<MotionEasing> = if k < easings.len() { Some(easings[k]) } else { None };
    interpolate_segment(host, at, input, &stops[k], &stops[k + 1], easing)
}

proof fn concat_prefix(a: Seq<Seq<char>>, s: Seq<char>, n: nat)
    requires
        n <= a.len(),
    ensures
        concat(a.push(s), n) == concat(a, n),
    decreases n,
{
    if n > 0 {
        concat_prefix(a, s, (n - 1) as nat);
    }
}

proof fn pieces_at(parts: Seq<TemplatePart>, done: Seq<Value>, n: nat, i: int)
    requires
        0 <= i < n,
    ensures
        pieces(parts, done, n).len() == n,
        pieces(parts, done, n)[i] == (match parts[i] {
            TemplatePart::Text { value } => Piece::Text(value@),
            TemplatePart::Expr { expr } => if expr.0 < done.len() {
                Piece::Token(done[expr.0 as int])
            } else {
                Piece::Missing(expr.0 as int)
            },
        }),
    decreases n,
{
    pieces_len(parts, done, (n - 1) as nat);
    if i < n - 1 {
        pieces_at(parts, done, (n - 1) as nat, i);
    }
}

proof fn pieces_len(parts: Seq<TemplatePart>, done: Seq<Value>, n: nat)
    ensures
        pieces(parts, done, n).len() == n,
    decreases n,
{
    if n > 0 {
        pieces_len(parts, done, (n - 1) as nat);
    }
}

fn eval_template<T: Fn(&MotionValue) -> String>(
    tokens: &T,
    at: usize,
    parts: &Vec<TemplatePart>,
    done: &Vec<MotionValue>,
) -> (r: Result<MotionValue, EvalError>)
    requires
        forall|v: MotionValue| call_requires(*tokens, (&v,)),
    ensures
        template_gives(
            *tokens,
            at as int,
            pieces(parts@, values_of(done@), parts@.len()),
            eval_seen(r),
        ),
{
    let ghost all = pieces(parts@, values_of(done@), parts@.len());
    let ghost mut texts: Seq<Seq<char>> = Seq::empty();
    let mut out = String::new();
    let mut i: usize = 0;
    proof {
        pieces_len(parts@, values_of(done@), parts@.len());
        assert(fits(texts, 0)) by {
            assert(byte_len(concat(texts, 0)) == 0);
        }
    }
    while i < parts.len()
        invariant
            forall|v: MotionValue| call_requires(*tokens, (&v,)),
            all == pieces(parts@, values_of(done@), parts@.len()),
            all.len() == parts@.len(),
            i <= parts@.len(),
            texts.len() == i,
            writes(*tokens, all, texts),
            fits(texts, i as int),
            out@ == concat(texts, i as nat),
        decreases parts@.len() - i,
    {
        let ghost before = texts;
        proof {
            pieces_at(parts@, values_of(done@), parts@.len(), i as int);
        }
        match &parts[i] {
            TemplatePart::Text { value } => {
                out = joined(out, value.as_str());
                proof {
                    texts = before.push(value@);
                }
            },
            TemplatePart::Expr { expr } => {
                match child(at, done, *expr) {
                    Err(e) => {
                        return Err(e);
                    },
                    Ok(v) => {
                        let token = css_token(v, tokens);
                        out = joined(out, token.as_str());
                        proof {
                            texts = before.push(token@);
                        }
                    },
                }
            },
        }
        proof {
            concat_prefix(before, texts.last(), i as nat);
            assert(before.push(texts.last()) =~= texts);
            assert(out@ =~= concat(texts, (i + 1) as nat));
            assert forall|m: int| 0 <= m <= i implies byte_len(#[trigger] concat(texts, m as nat))
                <= MAX_TEMPLATE_OUTPUT_BYTES by {
                concat_prefix(before, texts.last(), m as nat);
                assert(byte_len(concat(before, m as nat)) <= MAX_TEMPLATE_OUTPUT_BYTES);
            }
            assert(writes_piece(*tokens, all[i as int], texts.last()));
            assert forall|j: int| 0 <= j < texts.len() implies writes_piece(
                *tokens,
                all[j],
                #[trigger] texts[j],
            ) by {
                if j < i {
                    assert(texts[j] == before[j]);
                }
            }
            byte_len_is_encoding_len(out@);
        }
        let length: usize = out.as_str().as_bytes().len();
        if length > MAX_TEMPLATE_OUTPUT_BYTES {
            assert(writes(*tokens, all, texts));
            return Err(EvalError::TemplateTooLong { at });
        }
        i = i + 1;
    }
    assert(writes(*tokens, all, texts));
    Ok(MotionValue::Str(out))
}

fn eval_operator<
    K: Fn(&Kernel) -> Result<MotionValue, KernelError>,
    T: Fn(&MotionValue) -> String,
>(
    host: &K,
    tokens: &T,
    at: usize,
    expr: &Expr,
    done: &Vec<MotionValue>,
    inputs: &EvalInputs,
) -> (r: Result<MotionValue, EvalError>)
    requires
        forall|k: Kernel| call_requires(*host, (&k,)),
        forall|v: MotionValue| call_requires(*tokens, (&v,)),
    ensures
        gives(
            *host,
            *tokens,
            at as int,
            operator_plan(at as int, *expr, values_of(done@), *inputs),
            eval_seen(r),
        ),
{
    match expr {
        Expr::Add { lhs, rhs } => match pair_at(at, "add", done, *lhs, *rhs) {
            Ok(p) => ask(host, at, "add", Kernel::Add { a: p.0, b: p.1 }),
            Err(e) => Err(e),
        },
        Expr::Sub { lhs, rhs } => match pair_at(at, "sub", done, *lhs, *rhs) {
            Ok(p) => ask(host, at, "sub", Kernel::Sub { a: p.0, b: p.1 }),
            Err(e) => Err(e),
        },
        Expr::Mul { lhs, rhs } => match pair_at(at, "mul", done, *lhs, *rhs) {
            Ok(p) => ask(host, at, "mul", Kernel::Mul { a: p.0, b: p.1 }),
            Err(e) => Err(e),
        },
        Expr::Div { lhs, rhs } => match number_at(at, "div", done, *rhs) {
            Err(e) => Err(e),
            Ok(b) => {
                if b.eq_value(Scalar::from_bits(ZERO)) {
                    return Err(EvalError::DivisionByZero { at });
                }
                match number_at(at, "div", done, *lhs) {
                    Err(e) => Err(e),
                    Ok(a) => ask(host, at, "div", Kernel::Div { a, b }),
                }
            },
        },
        Expr::Neg { input } => match number_at(at, "neg", done, *input) {
            Err(e) => Err(e),
            Ok(x) => Ok(MotionValue::Number(x.neg())),
        },
        Expr::Compare { op, lhs, rhs } => match child(at, done, *lhs) {
            Err(e) => Err(e),
            Ok(a) => match child(at, done, *rhs) {
                Err(e) => Err(e),
                Ok(b) => compare(at, *op, a, b),
            },
        },
        Expr::Select { condition, when_true, when_false } => match child(at, done, *condition) {
            Err(e) => Err(e),
            Ok(MotionValue::Bool(b)) => {
                let id = if *b { *when_true } else { *when_false };
                match child(at, done, id) {
                    Ok(v) => Ok(v.duplicate()),
                    Err(e) => Err(e),
                }
            },
            Ok(_) => Err(EvalError::TypeMismatch { at, op: "select" }),
        },
        Expr::Template { parts } => eval_template(tokens, at, parts, done),
        Expr::MathUnary { op, input } => match number_at(at, "math", done, *input) {
            Err(e) => Err(e),
            Ok(x) => ask(host, at, "math", Kernel::MathUnary { op: *op, x }),
        },
        Expr::MathBinary { op, lhs, rhs } => match numbers_at(
            at,
            "math",
            done,
            &ids2(*lhs, *rhs),
        ) {
            Err(e) => Err(e),
            Ok(n) => ask(host, at, "math", Kernel::MathBinary { op: *op, a: n[0], b: n[1] }),
        },
        Expr::Noise1D { seed, x } => match number_at(at, "noise1d", done, *x) {
            Err(e) => Err(e),
            Ok(x) => ask(host, at, "noise1d", Kernel::Noise1D { seed: *seed, x }),
        },
        Expr::Noise2D { seed, x, y } => match numbers_at(at, "noise2d", done, &ids2(*x, *y)) {
            Err(e) => Err(e),
            Ok(n) => ask(
                host,
                at,
                "noise2d",
                Kernel::Noise2D { seed: *seed, x: n[0], y: n[1] },
            ),
        },
        Expr::FormatNumber { input, format } => match number_at(
            at,
            "formatNumber",
            done,
            *input,
        ) {
            Err(e) => Err(e),
            Ok(x) => ask(
                host,
                at,
                "number formatting",
                Kernel::Format { x, format: *format },
            ),
        },
        Expr::Spring { elapsed_frames, mass, stiffness, damping } => match number_at(
            at,
            "spring",
            done,
            *elapsed_frames,
        ) {
            Err(e) => Err(e),
            Ok(frames) => {
                let fps = inputs.ctx.fps;
                if !fps.is_finite() || fps.le(Scalar::from_bits(ZERO)) {
                    return Err(EvalError::TypeMismatch { at, op: "spring" });
                }
                ask(
                    host,
                    at,
                    "spring",
                    Kernel::Spring {
                        frames,
                        fps,
                        mass: *mass,
                        stiffness: *stiffness,
                        damping: *damping,
                    },
                )
            },
        },
        Expr::Interpolate { input, stops, easings, extrapolate_left, extrapolate_right } =>
            match number_at(at, "interpolate", done, *input) {
                Err(e) => Err(e),
                Ok(x) => eval_interpolate(
                    host,
                    tokens,
                    at,
                    x,
                    stops,
                    easings,
                    *extrapolate_left,
                    *extrapolate_right,
                ),
            },
        _ => Err(EvalError::BadExpr { at, referenced: at }),
    }
}

/// Evaluates one expression from the values of earlier ones.
pub fn eval_one<K: Fn(&Kernel) -> Result<MotionValue, KernelError>, T: Fn(&MotionValue) -> String>(
    host: &K,
    tokens: &T,
    at: usize,
    expr: &Expr,
    done: &Vec<MotionValue>,
    inputs: &EvalInputs,
    layout: &LayoutInputs,
) -> (r: Result<MotionValue, EvalError>)
    requires
        forall|k: Kernel| call_requires(*host, (&k,)),
        forall|v: MotionValue| call_requires(*tokens, (&v,)),
    ensures
        gives(
            *host,
            *tokens,
            at as int,
            plan(at as int, *expr, values_of(done@), *inputs, *layout),
            eval_seen(r),
        ),
{
    match expr {
        Expr::Const { .. }
        | Expr::Context { .. }
        | Expr::Prop { .. }
        | Expr::Cue { .. }
        | Expr::NodeBounds { .. }
        | Expr::Project3D { .. } => eval_leaf(at, expr, inputs, layout),
        Expr::MakePoint { .. }
        | Expr::MakeRect { .. }
        | Expr::PathLine { .. }
        | Expr::PathTemplate { .. }
        | Expr::PathCubic { .. }
        | Expr::PathArc { .. }
        | Expr::PathArea { .. }
        | Expr::PathTrajectory { .. } => eval_path(host, tokens, at, expr, done),
        Expr::PathOffset { .. }
        | Expr::PathMorph { .. }
        | Expr::PathPointAt { .. }
        | Expr::PathTangentAt { .. }
        | Expr::PathAngleAt { .. }
        | Expr::PathLength { .. }
        | Expr::GeometryField { .. }
        | Expr::ToLength2 { .. } => eval_sample(host, tokens, at, expr, done),
        _ => eval_operator(host, tokens, at, expr, done, inputs),
    }
}

} // verus!
