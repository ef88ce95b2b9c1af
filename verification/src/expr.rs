//! The expression arena: what an expression is, what it reads, and what depends on what.

use vstd::prelude::*;

use crate::path::{GeometryEvalPolicy, PathData, PathVerb};
use crate::reach::{linked, reachable, reaches};
use crate::scalar::Scalar;
use crate::value::{ControlType, MotionEasing, MotionValue, Value};

verus! {

/// Position of an expression in the arena.
#[derive(Clone, Copy, Debug, PartialEq, Eq, PartialOrd, Ord, Structural)]
pub struct ExprId(pub u32);

#[derive(Clone, Copy, Debug, PartialEq, Eq, Structural)]
pub enum PhaseKind {
    Enter,
    Hold,
    Exit,
}

/// A value that the frame context supplies.
#[derive(Clone, Copy, Debug, PartialEq, Eq, Structural)]
pub enum ContextInput {
    LocalFrame,
    /// Continuous clip progress in `[0, 1)`.
    LocalProgress,
    /// Clip-local composition seconds.
    CompositionSeconds,
    DurationFrames,
    FpsNum,
    FpsDen,
    PhaseFrame { phase: PhaseKind },
    PhaseDurationFrames { phase: PhaseKind },
    PhaseProgress { phase: PhaseKind },
    /// Frames since phase start, negative before the phase.
    PhaseElapsedFrames { phase: PhaseKind },
    PhaseActive { phase: PhaseKind },
    HoldIteration,
    HoldCycleFrame,
    HoldCycleProgress,
    /// Current text-unit index, defined only in per-unit text styles.
    UnitIndex,
    UnitCount,
    UnitStart,
    UnitEnd,
    ViewportWidth,
    ViewportHeight,
}

impl ContextInput {
    pub open spec fn of_unit(self) -> bool {
        self == ContextInput::UnitIndex || self == ContextInput::UnitCount || self
            == ContextInput::UnitStart || self == ContextInput::UnitEnd
    }

    /// Whether this value requires a per-unit evaluation context.
    pub fn is_unit(self) -> (r: bool)
        ensures
            r == self.of_unit(),
    {
        match self {
            ContextInput::UnitIndex
            | ContextInput::UnitCount
            | ContextInput::UnitStart
            | ContextInput::UnitEnd => true,
            _ => false,
        }
    }
}

#[derive(Clone, Copy, Debug, PartialEq, Eq, Structural)]
pub enum CueField {
    Active,
    Progress,
    Enter,
    Hold,
    Exit,
    LocalFrame,
}

#[derive(Clone, Copy, Debug, PartialEq, Eq, Structural)]
pub enum GeometryField {
    X,
    Y,
    Width,
    Height,
}

#[derive(Clone, Copy, Debug, PartialEq, Eq, Structural)]
pub enum CompareOp {
    Eq,
    NotEq,
    Lt,
    Lte,
    Gt,
    Gte,
}

#[derive(Clone, Copy, Debug, PartialEq, Eq, Structural)]
pub enum Extrapolation {
    Clamp,
    Extend,
}

#[derive(Clone, Copy, Debug, PartialEq, Eq, Structural)]
pub enum MathUnaryOp {
    Sqrt,
    Exp,
    Sin,
    Cos,
    Tan,
    Floor,
    Ceil,
    Round,
    Trunc,
    Fract,
}

#[derive(Clone, Copy, Debug, PartialEq, Eq, Structural)]
pub enum MathBinaryOp {
    Atan2,
    Pow,
    Mod,
    Remainder,
    PingPong,
}

#[derive(Clone, Copy, Debug, PartialEq, Eq, Structural)]
pub enum NumberFormat {
    Number { decimals: u8, grouping: bool },
    Percent { decimals: u8, grouping: bool },
    Pad { width: u8 },
}

impl NumberFormat {
    pub open spec fn valid(self) -> bool {
        match self {
            NumberFormat::Number { decimals, .. } => decimals <= 12,
            NumberFormat::Percent { decimals, .. } => decimals <= 12,
            NumberFormat::Pad { width } => 1 <= width <= 64,
        }
    }

    /// One bound shared by folding, evaluation and admission.
    pub fn validate(self) -> (r: Result<(), &'static str>)
        ensures
            r is Ok == self.valid(),
            r matches Err(e) ==> e@ == "number format exceeds decimals 0..=12 or width 1..=64"@,
    {
        let ok: bool = match self {
            NumberFormat::Number { decimals, .. } => decimals <= 12,
            NumberFormat::Percent { decimals, .. } => decimals <= 12,
            NumberFormat::Pad { width } => 1 <= width && width <= 64,
        };
        if ok {
            Ok(())
        } else {
            Err("number format exceeds decimals 0..=12 or width 1..=64")
        }
    }
}

/// One stop of an interpolation.
#[derive(Debug)]
pub struct InterpolateStop {
    pub input: Scalar,
    pub output: MotionValue,
}

pub const MAX_TEMPLATE_PARTS: usize = 64;

pub const MAX_TEMPLATE_STATIC_BYTES: usize = 8 * 1024;

pub const MAX_TEMPLATE_OUTPUT_BYTES: usize = 16 * 1024;

#[derive(Debug)]
pub enum TemplatePart {
    Text { value: String },
    Expr { expr: ExprId },
}

/// One expression of the arena.
#[derive(Debug)]
pub enum Expr {
    Const { value: MotionValue },
    Context { input: ContextInput },
    Prop { name: String },
    Cue { name: String, field: CueField },
    MakePoint { x: ExprId, y: ExprId },
    MakeRect { x: ExprId, y: ExprId, width: ExprId, height: ExprId },
    PathLine { points: Vec<ExprId> },
    /// Fixed-topology path: the verbs are frozen, only coordinates move.
    PathTemplate { verbs: Vec<PathVerb>, points: Vec<ExprId> },
    PathCubic { from: ExprId, control_1: ExprId, control_2: ExprId, to: ExprId },
    PathArc { center: ExprId, radius: ExprId, start_angle: ExprId, end_angle: ExprId },
    PathArea { path: ExprId, baseline: ExprId },
    PathOffset { path: ExprId, distance: ExprId },
    PathMorph { from: ExprId, to: ExprId, progress: ExprId },
    PathPointAt { path: ExprId, progress: ExprId },
    PathTangentAt { path: ExprId, progress: ExprId },
    PathAngleAt { path: ExprId, progress: ExprId },
    PathLength { path: ExprId },
    PathTrajectory { frames: Vec<PathData>, frame: ExprId },
    GeometryField { input: ExprId, field: GeometryField },
    ToLength2 { input: ExprId },
    Add { lhs: ExprId, rhs: ExprId },
    Sub { lhs: ExprId, rhs: ExprId },
    Mul { lhs: ExprId, rhs: ExprId },
    Div { lhs: ExprId, rhs: ExprId },
    Neg { input: ExprId },
    Compare { op: CompareOp, lhs: ExprId, rhs: ExprId },
    Select { condition: ExprId, when_true: ExprId, when_false: ExprId },
    Template { parts: Vec<TemplatePart> },
    MathUnary { op: MathUnaryOp, input: ExprId },
    MathBinary { op: MathBinaryOp, lhs: ExprId, rhs: ExprId },
    Noise1D { seed: u64, x: ExprId },
    Noise2D { seed: u64, x: ExprId, y: ExprId },
    FormatNumber { input: ExprId, format: NumberFormat },
    Interpolate {
        input: ExprId,
        stops: Vec<InterpolateStop>,
        easings: Vec<MotionEasing>,
        extrapolate_left: Extrapolation,
        extrapolate_right: Extrapolation,
    },
    /// Damped harmonic oscillator from 0 to 1 with constant physical parameters.
    Spring { elapsed_frames: ExprId, mass: Scalar, stiffness: Scalar, damping: Scalar },
    /// Border box of a node, known only after layout.
    NodeBounds { key: String },
    /// A named 3D anchor in scene coordinates, known only after layout.
    Project3D { scene_key: String, anchor_key: String },
}

/// The substitutions among the first `n` parts of a template.
pub open spec fn substitutions(parts: Seq<TemplatePart>, n: nat) -> Seq<ExprId>
    decreases n,
{
    if n == 0 {
        Seq::empty()
    } else {
        let before = substitutions(parts, (n - 1) as nat);
        match parts[n - 1] {
            TemplatePart::Expr { expr } => before.push(expr),
            TemplatePart::Text { .. } => before,
        }
    }
}

impl Expr {
    /// Direct children, in the order in which they are written.
    pub open spec fn refs(self) -> Seq<ExprId> {
        match self {
            Expr::Const { .. } => Seq::empty(),
            Expr::Context { .. } => Seq::empty(),
            Expr::Prop { .. } => Seq::empty(),
            Expr::Cue { .. } => Seq::empty(),
            Expr::NodeBounds { .. } => Seq::empty(),
            Expr::Project3D { .. } => Seq::empty(),
            Expr::MakePoint { x, y } => seq![x, y],
            Expr::MakeRect { x, y, width, height } => seq![x, y, width, height],
            Expr::PathLine { points } => points@,
            Expr::PathTemplate { points, .. } => points@,
            Expr::PathCubic { from, control_1, control_2, to } => seq![
                from,
                control_1,
                control_2,
                to,
            ],
            Expr::PathArc { center, radius, start_angle, end_angle } => seq![
                center,
                radius,
                start_angle,
                end_angle,
            ],
            Expr::PathArea { path, baseline } => seq![path, baseline],
            Expr::PathOffset { path, distance } => seq![path, distance],
            Expr::PathMorph { from, to, progress } => seq![from, to, progress],
            Expr::PathPointAt { path, progress } => seq![path, progress],
            Expr::PathTangentAt { path, progress } => seq![path, progress],
            Expr::PathAngleAt { path, progress } => seq![path, progress],
            Expr::PathLength { path } => seq![path],
            Expr::PathTrajectory { frame, .. } => seq![frame],
            Expr::GeometryField { input, .. } => seq![input],
            Expr::ToLength2 { input } => seq![input],
            Expr::Neg { input } => seq![input],
            Expr::MathUnary { input, .. } => seq![input],
            Expr::Noise1D { x, .. } => seq![x],
            Expr::FormatNumber { input, .. } => seq![input],
            Expr::Interpolate { input, .. } => seq![input],
            Expr::MathBinary { lhs, rhs, .. } => seq![lhs, rhs],
            Expr::Noise2D { x, y, .. } => seq![x, y],
            Expr::Spring { elapsed_frames, .. } => seq![elapsed_frames],
            Expr::Add { lhs, rhs } => seq![lhs, rhs],
            Expr::Sub { lhs, rhs } => seq![lhs, rhs],
            Expr::Mul { lhs, rhs } => seq![lhs, rhs],
            Expr::Div { lhs, rhs } => seq![lhs, rhs],
            Expr::Compare { lhs, rhs, .. } => seq![lhs, rhs],
            Expr::Select { condition, when_true, when_false } => seq![
                condition,
                when_true,
                when_false,
            ],
            Expr::Template { parts } => substitutions(parts@, parts@.len()),
        }
    }

    /// Direct child expressions.
    pub fn children(&self) -> (r: Vec<ExprId>)
        ensures
            r@ == self.refs(),
    {
        let r = match self {
            Expr::Const { .. }
            | Expr::Context { .. }
            | Expr::Prop { .. }
            | Expr::Cue { .. }
            | Expr::NodeBounds { .. }
            | Expr::Project3D { .. } => Vec::new(),
            Expr::MakePoint { x, y } => two(*x, *y),
            Expr::MakeRect { x, y, width, height } => four(*x, *y, *width, *height),
            Expr::PathLine { points } => copy_ids(points),
            Expr::PathTemplate { points, .. } => copy_ids(points),
            Expr::PathCubic { from, control_1, control_2, to } => four(
                *from,
                *control_1,
                *control_2,
                *to,
            ),
            Expr::PathArc { center, radius, start_angle, end_angle } => four(
                *center,
                *radius,
                *start_angle,
                *end_angle,
            ),
            Expr::PathArea { path, baseline } => two(*path, *baseline),
            Expr::PathOffset { path, distance } => two(*path, *distance),
            Expr::PathMorph { from, to, progress } => three(*from, *to, *progress),
            Expr::PathPointAt { path, progress } => two(*path, *progress),
            Expr::PathTangentAt { path, progress } => two(*path, *progress),
            Expr::PathAngleAt { path, progress } => two(*path, *progress),
            Expr::PathLength { path } => one(*path),
            Expr::PathTrajectory { frame, .. } => one(*frame),
            Expr::GeometryField { input, .. } => one(*input),
            Expr::ToLength2 { input } => one(*input),
            Expr::Neg { input } => one(*input),
            Expr::MathUnary { input, .. } => one(*input),
            Expr::Noise1D { x, .. } => one(*x),
            Expr::FormatNumber { input, .. } => one(*input),
            Expr::Interpolate { input, .. } => one(*input),
            Expr::MathBinary { lhs, rhs, .. } => two(*lhs, *rhs),
            Expr::Noise2D { x, y, .. } => two(*x, *y),
            Expr::Spring { elapsed_frames, .. } => one(*elapsed_frames),
            Expr::Add { lhs, rhs } => two(*lhs, *rhs),
            Expr::Sub { lhs, rhs } => two(*lhs, *rhs),
            Expr::Mul { lhs, rhs } => two(*lhs, *rhs),
            Expr::Div { lhs, rhs } => two(*lhs, *rhs),
            Expr::Compare { lhs, rhs, .. } => two(*lhs, *rhs),
            Expr::Select { condition, when_true, when_false } => three(
                *condition,
                *when_true,
                *when_false,
            ),
            Expr::Template { parts } => template_ids(parts),
        };
        r
    }
}

fn one(a: ExprId) -> (r: Vec<ExprId>)
    ensures
        r@ == seq![a],
{
    let mut v: Vec<ExprId> = Vec::new();
    v.push(a);
    assert(v@ =~= seq![a]);
    v
}

fn two(a: ExprId, b: ExprId) -> (r: Vec<ExprId>)
    ensures
        r@ == seq![a, b],
{
    let mut v = one(a);
    v.push(b);
    assert(v@ =~= seq![a, b]);
    v
}

fn three(a: ExprId, b: ExprId, c: ExprId) -> (r: Vec<ExprId>)
    ensures
        r@ == seq![a, b, c],
{
    let mut v = two(a, b);
    v.push(c);
    assert(v@ =~= seq![a, b, c]);
    v
}

fn four(a: ExprId, b: ExprId, c: ExprId, d: ExprId) -> (r: Vec<ExprId>)
    ensures
        r@ == seq![a, b, c, d],
{
    let mut v = three(a, b, c);
    v.push(d);
    assert(v@ =~= seq![a, b, c, d]);
    v
}

fn copy_ids(ids: &Vec<ExprId>) -> (r: Vec<ExprId>)
    ensures
        r@ == ids@,
{
    let mut out: Vec<ExprId> = Vec::new();
    let mut i: usize = 0;
    while i < ids.len()
        invariant
            i <= ids@.len(),
            out@ == ids@.take(i as int),
        decreases ids@.len() - i,
    {
        out.push(ids[i]);
        i = i + 1;
        assert(out@ =~= ids@.take(i as int));
    }
    assert(ids@.take(ids@.len() as int) =~= ids@);
    out
}

fn template_ids(parts: &Vec<TemplatePart>) -> (r: Vec<ExprId>)
    ensures
        r@ == substitutions(parts@, parts@.len()),
{
    let mut out: Vec<ExprId> = Vec::new();
    let mut i: usize = 0;
    while i < parts.len()
        invariant
            i <= parts@.len(),
            out@ == substitutions(parts@, i as nat),
        decreases parts@.len() - i,
    {
        match &parts[i] {
            TemplatePart::Expr { expr } => {
                out.push(*expr);
            },
            TemplatePart::Text { .. } => {},
        }
        i = i + 1;
    }
    out
}

/// Whether some earlier child of expression `at` is flagged.
pub open spec fn child_flagged(flags: Seq<bool>, refs: Seq<ExprId>, at: int) -> bool {
    exists|k: int|
        0 <= k < refs.len() && (#[trigger] refs[k]).0 < at && flags[refs[k].0 as int]
}

/// Whether every flag is exactly "direct, or inherited from an earlier child".
pub open spec fn inherits(exprs: Seq<Expr>, direct: spec_fn(Expr) -> bool, flags: Seq<bool>) -> bool {
    &&& flags.len() == exprs.len()
    &&& forall|i: int|
        0 <= i < flags.len() ==> #[trigger] flags[i] == (direct(exprs[i]) || child_flagged(
            flags,
            exprs[i].refs(),
            i,
        ))
}

/// Inherited flags are determined by the arena.
pub proof fn inheritance_is_unique(
    exprs: Seq<Expr>,
    direct: spec_fn(Expr) -> bool,
    a: Seq<bool>,
    b: Seq<bool>,
)
    requires
        inherits(exprs, direct, a),
        inherits(exprs, direct, b),
    ensures
        a == b,
{
    assert forall|i: int| 0 <= i < a.len() implies a[i] == b[i] by {
        inheritance_agrees(exprs, direct, a, b, i);
    }
    assert(a =~= b);
}

proof fn inheritance_agrees(
    exprs: Seq<Expr>,
    direct: spec_fn(Expr) -> bool,
    a: Seq<bool>,
    b: Seq<bool>,
    i: int,
)
    requires
        inherits(exprs, direct, a),
        inherits(exprs, direct, b),
        0 <= i < exprs.len(),
    ensures
        a[i] == b[i],
    decreases i,
{
    let refs = exprs[i].refs();
    assert forall|k: int| 0 <= k < refs.len() && (#[trigger] refs[k]).0 < i implies a[refs[k].0 as int]
        == b[refs[k].0 as int] by {
        inheritance_agrees(exprs, direct, a, b, refs[k].0 as int);
    }
    if child_flagged(a, refs, i) {
        let k = choose|k: int|
            0 <= k < refs.len() && (#[trigger] refs[k]).0 < i && a[refs[k].0 as int];
        assert(b[refs[k].0 as int]);
        assert(child_flagged(b, refs, i));
    }
    if child_flagged(b, refs, i) {
        let k = choose|k: int|
            0 <= k < refs.len() && (#[trigger] refs[k]).0 < i && b[refs[k].0 as int];
        assert(a[refs[k].0 as int]);
        assert(child_flagged(a, refs, i));
    }
}

fn any_flagged(flags: &Vec<bool>, refs: &Vec<ExprId>, at: usize) -> (r: bool)
    requires
        at == flags@.len(),
    ensures
        r == child_flagged(flags@, refs@, at as int),
{
    let mut k: usize = 0;
    while k < refs.len()
        invariant
            at == flags@.len(),
            k <= refs@.len(),
            forall|j: int|
                0 <= j < k ==> !((#[trigger] refs@[j]).0 < at && flags@[refs@[j].0 as int]),
        decreases refs@.len() - k,
    {
        let id: usize = refs[k].0 as usize;
        if id < at && flags[id] {
            assert(refs@[k as int].0 < at && flags@[refs@[k as int].0 as int]);
            return true;
        }
        k = k + 1;
    }
    false
}

pub open spec fn reads_unit(e: Expr) -> bool {
    match e {
        Expr::Context { input } => input.of_unit(),
        _ => false,
    }
}

pub open spec fn reads_bounds(e: Expr) -> bool {
    e is NodeBounds
}

pub open spec fn reads_projection(e: Expr) -> bool {
    e is Project3D
}

pub proof fn flags_extend(exprs: Seq<Expr>, direct: spec_fn(Expr) -> bool, flags: Seq<bool>, next: bool)
    requires
        flags.len() < exprs.len(),
        inherits(exprs.take(flags.len() as int), direct, flags),
        next == (direct(exprs[flags.len() as int]) || child_flagged(
            flags,
            exprs[flags.len() as int].refs(),
            flags.len() as int,
        )),
    ensures
        inherits(exprs.take(flags.len() as int + 1), direct, flags.push(next)),
{
    let n = flags.len() as int;
    let more = flags.push(next);
    let head = exprs.take(n + 1);
    assert forall|i: int| 0 <= i < more.len() implies #[trigger] more[i] == (direct(head[i])
        || child_flagged(more, head[i].refs(), i)) by {
        let refs = exprs[i].refs();
        if i < n {
            assert(flags[i] == (direct(exprs.take(n)[i]) || child_flagged(
                flags,
                exprs.take(n)[i].refs(),
                i,
            )));
        }
        if child_flagged(more, refs, i) {
            let k = choose|k: int|
                0 <= k < refs.len() && (#[trigger] refs[k]).0 < i && more[refs[k].0 as int];
            assert(flags[refs[k].0 as int]);
            assert(child_flagged(flags, refs, i));
        }
        if child_flagged(flags, refs, i) {
            let k = choose|k: int|
                0 <= k < refs.len() && (#[trigger] refs[k]).0 < i && flags[refs[k].0 as int];
            assert(more[refs[k].0 as int]);
            assert(child_flagged(more, refs, i));
        }
    }
}

/// Which expressions depend on the current text unit, directly or through a child.
pub fn unit_dependent(exprs: &Vec<Expr>) -> (r: Vec<bool>)
    ensures
        inherits(exprs@, |e: Expr| reads_unit(e), r@),
{
    let ghost direct = |e: Expr| reads_unit(e);
    let mut flags: Vec<bool> = Vec::new();
    let mut i: usize = 0;
    while i < exprs.len()
        invariant
            i <= exprs@.len(),
            flags@.len() == i,
            direct == (|e: Expr| reads_unit(e)),
            inherits(exprs@.take(i as int), direct, flags@),
        decreases exprs@.len() - i,
    {
        let here: bool = match &exprs[i] {
            Expr::Context { input } => input.is_unit(),
            _ => false,
        };
        let refs = exprs[i].children();
        let next: bool = here || any_flagged(&flags, &refs, i);
        proof {
            flags_extend(exprs@, direct, flags@, next);
        }
        flags.push(next);
        i = i + 1;
    }
    assert(exprs@.take(i as int) =~= exprs@);
    flags
}

/// Which expressions depend on a node's bounds, directly or through a child.
pub fn bounds_dependent(exprs: &Vec<Expr>) -> (r: Vec<bool>)
    ensures
        inherits(exprs@, |e: Expr| reads_bounds(e), r@),
{
    let ghost direct = |e: Expr| reads_bounds(e);
    let mut flags: Vec<bool> = Vec::new();
    let mut i: usize = 0;
    while i < exprs.len()
        invariant
            i <= exprs@.len(),
            flags@.len() == i,
            direct == (|e: Expr| reads_bounds(e)),
            inherits(exprs@.take(i as int), direct, flags@),
        decreases exprs@.len() - i,
    {
        let here: bool = match &exprs[i] {
            Expr::NodeBounds { .. } => true,
            _ => false,
        };
        let refs = exprs[i].children();
        let next: bool = here || any_flagged(&flags, &refs, i);
        proof {
            flags_extend(exprs@, direct, flags@, next);
        }
        flags.push(next);
        i = i + 1;
    }
    assert(exprs@.take(i as int) =~= exprs@);
    flags
}

/// Which expressions depend on a projected 3D anchor, directly or through a child.
pub fn projection_dependent(exprs: &Vec<Expr>) -> (r: Vec<bool>)
    ensures
        inherits(exprs@, |e: Expr| reads_projection(e), r@),
{
    let ghost direct = |e: Expr| reads_projection(e);
    let mut flags: Vec<bool> = Vec::new();
    let mut i: usize = 0;
    while i < exprs.len()
        invariant
            i <= exprs@.len(),
            flags@.len() == i,
            direct == (|e: Expr| reads_projection(e)),
            inherits(exprs@.take(i as int), direct, flags@),
        decreases exprs@.len() - i,
    {
        let here: bool = match &exprs[i] {
            Expr::Project3D { .. } => true,
            _ => false,
        };
        let refs = exprs[i].children();
        let next: bool = here || any_flagged(&flags, &refs, i);
        proof {
            flags_extend(exprs@, direct, flags@, next);
        }
        flags.push(next);
        i = i + 1;
    }
    assert(exprs@.take(i as int) =~= exprs@);
    flags
}

pub open spec fn reads_layout(e: Expr) -> bool {
    reads_bounds(e) || reads_projection(e)
}

/// Inheriting either of two readings is inheriting one or the other.
pub proof fn either_is_inherited(exprs: Seq<Expr>, bounds: Seq<bool>, projected: Seq<bool>)
    requires
        inherits(exprs, |e: Expr| reads_bounds(e), bounds),
        inherits(exprs, |e: Expr| reads_projection(e), projected),
    ensures
        inherits(
            exprs,
            |e: Expr| reads_layout(e),
            Seq::new(exprs.len(), |i: int| bounds[i] || projected[i]),
        ),
{
    let both = Seq::new(exprs.len(), |i: int| bounds[i] || projected[i]);
    assert forall|i: int| 0 <= i < both.len() implies #[trigger] both[i] == (reads_layout(exprs[i])
        || child_flagged(both, exprs[i].refs(), i)) by {
        let refs = exprs[i].refs();
        assert(bounds[i] == (reads_bounds(exprs[i]) || child_flagged(bounds, refs, i)));
        assert(projected[i] == (reads_projection(exprs[i]) || child_flagged(projected, refs, i)));
        if child_flagged(bounds, refs, i) {
            let k = choose|k: int|
                0 <= k < refs.len() && (#[trigger] refs[k]).0 < i && bounds[refs[k].0 as int];
            assert(both[refs[k].0 as int]);
            assert(child_flagged(both, refs, i));
        }
        if child_flagged(projected, refs, i) {
            let k = choose|k: int|
                0 <= k < refs.len() && (#[trigger] refs[k]).0 < i && projected[refs[k].0 as int];
            assert(both[refs[k].0 as int]);
            assert(child_flagged(both, refs, i));
        }
        if child_flagged(both, refs, i) {
            let k = choose|k: int|
                0 <= k < refs.len() && (#[trigger] refs[k]).0 < i && both[refs[k].0 as int];
            if bounds[refs[k].0 as int] {
                assert(child_flagged(bounds, refs, i));
            } else {
                assert(projected[refs[k].0 as int]);
                assert(child_flagged(projected, refs, i));
            }
        }
    }
}

/// Which expressions have no value before layout.
pub fn post_layout_dependent(exprs: &Vec<Expr>) -> (r: Vec<bool>)
    ensures
        inherits(exprs@, |e: Expr| reads_layout(e), r@),
{
    let bounds = bounds_dependent(exprs);
    let projected = projection_dependent(exprs);
    let mut flags: Vec<bool> = Vec::new();
    let mut i: usize = 0;
    while i < exprs.len()
        invariant
            i <= exprs@.len() == bounds@.len() == projected@.len(),
            flags@ == Seq::new(i as nat, |k: int| bounds@[k] || projected@[k]),
        decreases exprs@.len() - i,
    {
        flags.push(bounds[i] || projected[i]);
        i = i + 1;
        assert(flags@ =~= Seq::new(i as nat, |k: int| bounds@[k] || projected@[k]));
    }
    proof {
        either_is_inherited(exprs@, bounds@, projected@);
    }
    flags
}

pub open spec fn reads_runtime(e: Expr) -> bool {
    match e {
        Expr::Context { .. } => true,
        Expr::Prop { .. } => true,
        Expr::Cue { .. } => true,
        Expr::NodeBounds { .. } => true,
        Expr::Project3D { .. } => true,
        Expr::Spring { .. } => true,
        _ => false,
    }
}

/// Whether an expression itself reads anything that is known only at run time. A spring reads the
/// frame rate.
pub fn expr_reads_runtime_inputs(expr: &Expr) -> (r: bool)
    ensures
        r == reads_runtime(*expr),
{
    match expr {
        Expr::Context { .. }
        | Expr::Prop { .. }
        | Expr::Cue { .. }
        | Expr::NodeBounds { .. }
        | Expr::Project3D { .. }
        | Expr::Spring { .. } => true,
        _ => false,
    }
}

/// The arena as a graph: expression `i` leads to its children.
pub open spec fn is_graph_of(edges: Seq<Vec<usize>>, exprs: Seq<Expr>) -> bool {
    &&& edges.len() == exprs.len()
    &&& forall|i: int|
        0 <= i < edges.len() ==> (#[trigger] edges[i])@ == exprs[i].refs().map_values(
            |id: ExprId| id.0 as usize,
        )
}

/// Whether an expression refers to another one of the arena.
pub open spec fn leads(exprs: Seq<Expr>, a: int, b: int) -> bool {
    0 <= a < exprs.len() && 0 <= b < exprs.len() && exists|k: int|
        0 <= k < exprs[a].refs().len() && (#[trigger] exprs[a].refs()[k]).0 == b
}

/// Whether a list names an expression of the arena.
pub open spec fn named(exprs: Seq<Expr>, roots: Seq<usize>, i: int) -> bool {
    0 <= i < exprs.len() && exists|k: int| 0 <= k < roots.len() && #[trigger] roots[k] == i
}

/// Whether expression `k` of a path refers to the next.
pub open spec fn descends(exprs: Seq<Expr>, path: Seq<int>, k: int) -> bool {
    leads(exprs, path[k], path[k + 1])
}

/// Whether a path starts at a named expression and follows references.
pub open spec fn is_descent(exprs: Seq<Expr>, roots: Seq<usize>, path: Seq<int>) -> bool {
    &&& path.len() > 0
    &&& named(exprs, roots, path[0])
    &&& forall|k: int| 0 <= k < path.len() - 1 ==> #[trigger] descends(exprs, path, k)
}

/// Whether expression `i` is among the given ones, or reached from one of them by references.
pub open spec fn below(exprs: Seq<Expr>, roots: Seq<usize>, i: int) -> bool {
    exists|path: Seq<int>| #[trigger] is_descent(exprs, roots, path) && path.last() == i
}

/// The given expressions are among what they reach.
pub proof fn below_root(exprs: Seq<Expr>, roots: Seq<usize>, i: int)
    requires
        named(exprs, roots, i),
    ensures
        below(exprs, roots, i),
{
    assert(is_descent(exprs, roots, seq![i]) && seq![i].last() == i);
}

/// What is reached follows every reference.
pub proof fn below_step(exprs: Seq<Expr>, roots: Seq<usize>, a: int, b: int)
    requires
        below(exprs, roots, a),
        leads(exprs, a, b),
    ensures
        below(exprs, roots, b),
{
    let path = choose|path: Seq<int>| #[trigger]
        is_descent(exprs, roots, path) && path.last() == a;
    let longer = path.push(b);
    assert forall|k: int| 0 <= k < longer.len() - 1 implies #[trigger] descends(
        exprs,
        longer,
        k,
    ) by {
        if k < path.len() - 1 {
            assert(descends(exprs, path, k));
        }
    }
    assert(is_descent(exprs, roots, longer) && longer.last() == b);
}

proof fn descents_stay(
    exprs: Seq<Expr>,
    roots: Seq<usize>,
    set: spec_fn(int) -> bool,
    path: Seq<int>,
)
    requires
        forall|i: int| #[trigger] named(exprs, roots, i) ==> set(i),
        forall|a: int, b: int| set(a) && #[trigger] leads(exprs, a, b) ==> set(b),
        is_descent(exprs, roots, path),
    ensures
        set(path.last()),
    decreases path.len(),
{
    if path.len() > 1 {
        let shorter = path.drop_last();
        assert forall|k: int| 0 <= k < shorter.len() - 1 implies #[trigger] descends(
            exprs,
            shorter,
            k,
        ) by {
            assert(descends(exprs, path, k));
        }
        descents_stay(exprs, roots, set, shorter);
        assert(descends(exprs, path, path.len() - 2));
        assert(leads(exprs, shorter.last(), path.last()));
    } else {
        assert(named(exprs, roots, path[0]));
    }
}

/// Whatever holds the given expressions and follows every reference holds all that they reach.
pub proof fn below_is_least(
    exprs: Seq<Expr>,
    roots: Seq<usize>,
    set: spec_fn(int) -> bool,
    i: int,
)
    requires
        forall|i: int| #[trigger] named(exprs, roots, i) ==> set(i),
        forall|a: int, b: int| set(a) && #[trigger] leads(exprs, a, b) ==> set(b),
        below(exprs, roots, i),
    ensures
        set(i),
{
    let path = choose|path: Seq<int>| #[trigger]
        is_descent(exprs, roots, path) && path.last() == i;
    descents_stay(exprs, roots, set, path);
}

/// The links of an arena are those of its graph.
proof fn graph_links(edges: Seq<Vec<usize>>, exprs: Seq<Expr>, a: int, b: int)
    requires
        is_graph_of(edges, exprs),
    ensures
        linked(edges, a, b) <==> leads(exprs, a, b),
{
    if 0 <= a < exprs.len() {
        let refs = exprs[a].refs();
        assert(edges[a]@ == refs.map_values(|id: ExprId| id.0 as usize));
        if linked(edges, a, b) {
            let k = choose|k: int| 0 <= k < edges[a]@.len() && #[trigger] edges[a]@[k] == b;
            assert(refs[k].0 == b);
        }
        if leads(exprs, a, b) {
            let k = choose|k: int| 0 <= k < refs.len() && (#[trigger] refs[k]).0 == b;
            assert(edges[a]@[k] == b);
        }
    }
}

/// What is below the roots is what they reach in the graph of the arena.
proof fn below_is_reach(edges: Seq<Vec<usize>>, exprs: Seq<Expr>, roots: Seq<usize>, i: int)
    requires
        is_graph_of(edges, exprs),
    ensures
        below(exprs, roots, i) <==> reaches(edges, roots, i),
{
    if below(exprs, roots, i) {
        let path = choose|path: Seq<int>| #[trigger]
            is_descent(exprs, roots, path) && path.last() == i;
        assert forall|k: int| 0 <= k < path.len() - 1 implies #[trigger] crate::reach::hop(
            edges,
            path,
            k,
        ) by {
            assert(descends(exprs, path, k));
            graph_links(edges, exprs, path[k], path[k + 1]);
        }
        assert(crate::reach::is_walk(edges, roots, path));
    }
    if reaches(edges, roots, i) {
        let path = choose|path: Seq<int>| #[trigger]
            crate::reach::is_walk(edges, roots, path) && path.last() == i;
        assert forall|k: int| 0 <= k < path.len() - 1 implies #[trigger] descends(
            exprs,
            path,
            k,
        ) by {
            assert(crate::reach::hop(edges, path, k));
            graph_links(edges, exprs, path[k], path[k + 1]);
        }
        assert(is_descent(exprs, roots, path));
    }
}

/// Builds the graph of an arena.
pub fn graph(exprs: &Vec<Expr>) -> (r: Vec<Vec<usize>>)
    ensures
        is_graph_of(r@, exprs@),
{
    let mut edges: Vec<Vec<usize>> = Vec::new();
    let mut i: usize = 0;
    while i < exprs.len()
        invariant
            i <= exprs@.len(),
            edges@.len() == i,
            forall|k: int|
                0 <= k < i ==> (#[trigger] edges@[k])@ == exprs@[k].refs().map_values(
                    |id: ExprId| id.0 as usize,
                ),
        decreases exprs@.len() - i,
    {
        let refs = exprs[i].children();
        let mut out: Vec<usize> = Vec::new();
        let mut k: usize = 0;
        while k < refs.len()
            invariant
                k <= refs@.len(),
                out@ == refs@.take(k as int).map_values(|id: ExprId| id.0 as usize),
            decreases refs@.len() - k,
        {
            out.push(refs[k].0 as usize);
            k = k + 1;
            assert(out@ =~= refs@.take(k as int).map_values(|id: ExprId| id.0 as usize));
        }
        assert(refs@.take(refs@.len() as int) =~= refs@);
        edges.push(out);
        i = i + 1;
    }
    edges
}

/// Marks the given expressions and everything below them. Cycles are followed once.
pub fn mark_below(exprs: &Vec<Expr>, roots: &Vec<usize>) -> (r: Vec<bool>)
    ensures
        r@.len() == exprs@.len(),
        forall|i: int| 0 <= i < r@.len() ==> #[trigger] r@[i] == below(exprs@, roots@, i),
{
    let edges = graph(exprs);
    let marks = reachable(&edges, roots);
    proof {
        assert forall|i: int| 0 <= i < marks@.len() implies #[trigger] marks@[i] == below(
            exprs@,
            roots@,
            i,
        ) by {
            below_is_reach(edges@, exprs@, roots@, i);
        }
    }
    marks
}

/// Whether anything in the subtree of an expression reads run-time inputs.
pub open spec fn subtree_reads(exprs: Seq<Expr>, id: ExprId) -> bool {
    exists|i: int|
        0 <= i < exprs.len() && #[trigger] below(exprs, seq![id.0 as usize], i) && reads_runtime(
            exprs[i],
        )
}

/// Detects run-time inputs anywhere in an expression's subtree.
pub fn subtree_reads_runtime_inputs(exprs: &Vec<Expr>, id: ExprId) -> (r: bool)
    ensures
        r == subtree_reads(exprs@, id),
{
    let mut roots: Vec<usize> = Vec::new();
    roots.push(id.0 as usize);
    assert(roots@ =~= seq![id.0 as usize]);
    let marks = mark_below(exprs, &roots);
    let mut i: usize = 0;
    while i < exprs.len()
        invariant
            i <= exprs@.len() == marks@.len(),
            forall|k: int|
                0 <= k < marks@.len() ==> #[trigger] marks@[k] == below(
                    exprs@,
                    seq![id.0 as usize],
                    k,
                ),
            forall|k: int|
                0 <= k < i && #[trigger] below(exprs@, seq![id.0 as usize], k) ==> !reads_runtime(
                    exprs@[k],
                ),
        decreases exprs@.len() - i,
    {
        assert(marks@[i as int] == below(exprs@, seq![id.0 as usize], i as int));
        if marks[i] && expr_reads_runtime_inputs(&exprs[i]) {
            return true;
        }
        i = i + 1;
    }
    false
}

/// Whether an expression is of a kind whose value does not change from frame to frame by itself,
/// and names only expressions of the arena.
pub open spec fn steady(exprs: Seq<Expr>, i: int) -> bool {
    &&& match exprs[i] {
        Expr::Const { .. } => true,
        Expr::Prop { .. } => true,
        Expr::MakePoint { .. } => true,
        Expr::PathLine { .. } => true,
        Expr::PathTemplate { .. } => true,
        Expr::PathCubic { .. } => true,
        Expr::PathArc { .. } => true,
        Expr::PathArea { .. } => true,
        Expr::PathOffset { .. } => true,
        _ => false,
    }
    &&& forall|k: int|
        0 <= k < exprs[i].refs().len() ==> (#[trigger] exprs[i].refs()[k]).0 < exprs.len()
}

/// Whether a geometry expression has one value for all frames: it and everything below it is
/// steady.
pub open spec fn frame_invariant_spec(exprs: Seq<Expr>, id: ExprId) -> bool {
    id.0 < exprs.len() && forall|i: int|
        0 <= i < exprs.len() && #[trigger] below(exprs, seq![id.0 as usize], i) ==> steady(exprs, i)
}

fn is_steady(exprs: &Vec<Expr>, i: usize) -> (r: bool)
    requires
        i < exprs@.len(),
    ensures
        r == steady(exprs@, i as int),
{
    let kind: bool = match &exprs[i] {
        Expr::Const { .. }
        | Expr::Prop { .. }
        | Expr::MakePoint { .. }
        | Expr::PathLine { .. }
        | Expr::PathTemplate { .. }
        | Expr::PathCubic { .. }
        | Expr::PathArc { .. }
        | Expr::PathArea { .. }
        | Expr::PathOffset { .. } => true,
        _ => false,
    };
    if !kind {
        return false;
    }
    let refs = exprs[i].children();
    let mut k: usize = 0;
    while k < refs.len()
        invariant
            i < exprs@.len(),
            refs@ == exprs@[i as int].refs(),
            k <= refs@.len(),
            forall|j: int| 0 <= j < k ==> (#[trigger] refs@[j]).0 < exprs@.len(),
        decreases refs@.len() - k,
    {
        if refs[k].0 as usize >= exprs.len() {
            assert(!(exprs@[i as int].refs()[k as int].0 < exprs@.len()));
            return false;
        }
        k = k + 1;
    }
    true
}

pub fn frame_invariant(exprs: &Vec<Expr>, id: ExprId) -> (r: bool)
    ensures
        r == frame_invariant_spec(exprs@, id),
{
    if id.0 as usize >= exprs.len() {
        return false;
    }
    let mut roots: Vec<usize> = Vec::new();
    roots.push(id.0 as usize);
    assert(roots@ =~= seq![id.0 as usize]);
    let marks = mark_below(exprs, &roots);
    let mut i: usize = 0;
    while i < exprs.len()
        invariant
            id.0 < exprs@.len(),
            i <= exprs@.len() == marks@.len(),
            forall|k: int|
                0 <= k < marks@.len() ==> #[trigger] marks@[k] == below(
                    exprs@,
                    seq![id.0 as usize],
                    k,
                ),
            forall|k: int|
                0 <= k < i && #[trigger] below(exprs@, seq![id.0 as usize], k) ==> steady(
                    exprs@,
                    k,
                ),
        decreases exprs@.len() - i,
    {
        assert(marks@[i as int] == below(exprs@, seq![id.0 as usize], i as int));
        if marks[i] && !is_steady(exprs, i) {
            return false;
        }
        i = i + 1;
    }
    true
}

/// How a geometry expression is evaluated; nothing for expressions that are no geometry.
pub open spec fn eval_policy(exprs: Seq<Expr>, id: ExprId) -> Option<GeometryEvalPolicy> {
    if id.0 >= exprs.len() {
        None
    } else if frame_invariant_spec(exprs, id) {
        Some(GeometryEvalPolicy::PrepareCached)
    } else {
        match exprs[id.0 as int] {
            Expr::PathTrajectory { .. } => Some(GeometryEvalPolicy::PrecomputedTrajectory),
            Expr::PathMorph { .. } => Some(GeometryEvalPolicy::FrameExpr),
            Expr::PathLine { .. } => Some(GeometryEvalPolicy::FrameExpr),
            Expr::PathTemplate { .. } => Some(GeometryEvalPolicy::FrameExpr),
            Expr::PathCubic { .. } => Some(GeometryEvalPolicy::FrameExpr),
            Expr::PathArc { .. } => Some(GeometryEvalPolicy::FrameExpr),
            Expr::PathArea { .. } => Some(GeometryEvalPolicy::FrameExpr),
            Expr::PathOffset { .. } => Some(GeometryEvalPolicy::FrameExpr),
            Expr::Interpolate { .. } => Some(GeometryEvalPolicy::FrameExpr),
            Expr::Select { .. } => Some(GeometryEvalPolicy::FrameExpr),
            _ => None,
        }
    }
}

pub fn geometry_eval_policy(exprs: &Vec<Expr>, id: ExprId) -> (r: Option<GeometryEvalPolicy>)
    ensures
        r == eval_policy(exprs@, id),
{
    if id.0 as usize >= exprs.len() {
        return None;
    }
    if frame_invariant(exprs, id) {
        return Some(GeometryEvalPolicy::PrepareCached);
    }
    match &exprs[id.0 as usize] {
        Expr::PathTrajectory { .. } => Some(GeometryEvalPolicy::PrecomputedTrajectory),
        Expr::PathMorph { .. }
        | Expr::PathLine { .. }
        | Expr::PathTemplate { .. }
        | Expr::PathCubic { .. }
        | Expr::PathArc { .. }
        | Expr::PathArea { .. }
        | Expr::PathOffset { .. }
        | Expr::Interpolate { .. }
        | Expr::Select { .. } => Some(GeometryEvalPolicy::FrameExpr),
        _ => None,
    }
}

/// The type of an expression.
#[derive(Clone, Copy, Debug, PartialEq, Eq, Structural)]
pub enum ExprType {
    Number,
    Bool,
    Text,
    Enum,
    Length,
    Length2,
    Angle,
    Color,
    Point,
    Vec2,
    Rect,
    PathData,
}

impl ExprType {
    pub open spec fn of(value: Value) -> ExprType {
        match value {
            Value::Number(_) => ExprType::Number,
            Value::Bool(_) => ExprType::Bool,
            Value::Str(_) => ExprType::Text,
            Value::Enum(_) => ExprType::Enum,
            Value::Length(_) => ExprType::Length,
            Value::Length2(_) => ExprType::Length2,
            Value::Angle(_) => ExprType::Angle,
            Value::Color(_) => ExprType::Color,
            Value::Point(_) => ExprType::Point,
            Value::Vec2(_) => ExprType::Vec2,
            Value::Rect(_) => ExprType::Rect,
            Value::PathData(_) => ExprType::PathData,
        }
    }

    pub fn of_value(value: &MotionValue) -> (r: ExprType)
        ensures
            r == ExprType::of(value@),
    {
        match value {
            MotionValue::Number(_) => ExprType::Number,
            MotionValue::Bool(_) => ExprType::Bool,
            MotionValue::Str(_) => ExprType::Text,
            MotionValue::Enum(_) => ExprType::Enum,
            MotionValue::Length(_) => ExprType::Length,
            MotionValue::Length2(_) => ExprType::Length2,
            MotionValue::Angle(_) => ExprType::Angle,
            MotionValue::Color(_) => ExprType::Color,
            MotionValue::Point(_) => ExprType::Point,
            MotionValue::Vec2(_) => ExprType::Vec2,
            MotionValue::Rect(_) => ExprType::Rect,
            MotionValue::PathData(_) => ExprType::PathData,
        }
    }

    pub open spec fn taken_by(control: ControlType) -> ExprType {
        match control {
            ControlType::Number { .. } => ExprType::Number,
            ControlType::Text => ExprType::Text,
            ControlType::NodeTarget => ExprType::Text,
            ControlType::Bool => ExprType::Bool,
            ControlType::Color => ExprType::Color,
            ControlType::Length => ExprType::Length,
            ControlType::Angle => ExprType::Angle,
            ControlType::Point => ExprType::Point,
            ControlType::Rect => ExprType::Rect,
            ControlType::PathData => ExprType::PathData,
            ControlType::Select { .. } => ExprType::Enum,
        }
    }

    pub fn of_control(control: &ControlType) -> (r: ExprType)
        ensures
            r == ExprType::taken_by(*control),
    {
        match control {
            ControlType::Number { .. } => ExprType::Number,
            ControlType::Text | ControlType::NodeTarget => ExprType::Text,
            ControlType::Bool => ExprType::Bool,
            ControlType::Color => ExprType::Color,
            ControlType::Length => ExprType::Length,
            ControlType::Angle => ExprType::Angle,
            ControlType::Point => ExprType::Point,
            ControlType::Rect => ExprType::Rect,
            ControlType::PathData => ExprType::PathData,
            ControlType::Select { .. } => ExprType::Enum,
        }
    }

    pub open spec fn continuous(self) -> bool {
        self != ExprType::Bool && self != ExprType::Text && self != ExprType::Enum
    }

    /// Whether values of the type can be blended.
    pub fn is_continuous(self) -> (r: bool)
        ensures
            r == self.continuous(),
    {
        match self {
            ExprType::Bool | ExprType::Text | ExprType::Enum => false,
            _ => true,
        }
    }
}

/// What a control accepts has the type of the control.
pub proof fn accepted_values_have_the_control_type(control: ControlType, value: Value)
    requires
        control.accepts_value(value),
    ensures
        ExprType::of(value) == ExprType::taken_by(control),
{
}

} // verus!
