//! Admission of the expression arena: types, budgets, and every violation in order.

use vstd::prelude::*;

use crate::expr::{
    CompareOp, ContextInput, CueField, Expr, ExprId, ExprType, GeometryField, InterpolateStop,
    TemplatePart, MAX_TEMPLATE_PARTS, MAX_TEMPLATE_STATIC_BYTES,
};
use crate::findings::{findings, found_if, ValidationError};
use crate::path::{
    fitting, Path, PathData, PathVerb, MAX_FRAME_GEOMETRY_POINTS,
    MAX_GEOMETRY_TRAJECTORY_FRAMES, PATH_ARC_SEGMENTS, PATH_CURVE_STEPS,
};
use crate::scalar::{num, Scalar, ZERO};
use crate::table::find;
use crate::text::{byte_len, numeral};
use crate::value::{ControlsSchema, MotionEasing, MotionValue, Value};

verus! {

/// Most points that the frames of one trajectory may hold together.
pub const MAX_PATH_TRAJECTORY_POINTS: usize = 2_000_000;

pub type Finding = (Seq<char>, Seq<char>);

/// What admission says of one expression.
#[verifier::ext_equal]
pub struct Verdict {
    pub ty: Option<ExprType>,
    pub errors: Seq<Finding>,
}

/// What admission says of one expression.
pub struct Report {
    pub ty: Option<ExprType>,
    pub errors: Vec<ValidationError>,
}

impl View for Report {
    type V = Verdict;

    open spec fn view(&self) -> Verdict {
        Verdict { ty: self.ty, errors: findings(self.errors@) }
    }
}

/// Where findings about an expression are reported.
pub open spec fn at(index: nat) -> Seq<char> {
    "/exprs/"@ + numeral(index)
}

/// The type of an earlier expression; later ones have none yet.
pub open spec fn kid(types: Seq<Option<ExprType>>, index: nat, id: ExprId) -> Option<ExprType> {
    if id.0 < index { types[id.0 as int] } else { None }
}

/// The finding about a reference that is not to an earlier expression.
pub open spec fn forward(index: nat, id: ExprId) -> Seq<Finding> {
    found_if(
        id.0 >= index,
        at(index) + "/expr"@,
        "expressions may only reference earlier expressions"@,
    )
}

/// Position of the first reference that does not have the type it should have.
pub open spec fn first_unmet(
    types: Seq<Option<ExprType>>,
    index: nat,
    wants: Seq<(ExprId, ExprType)>,
    from: int,
) -> int
    decreases wants.len() - from,
{
    if from < 0 || from >= wants.len() {
        wants.len() as int
    } else if kid(types, index, wants[from].0) != Some(wants[from].1) {
        from
    } else {
        first_unmet(types, index, wants, from + 1)
    }
}

/// Whether all references have the types they should have.
pub open spec fn met(
    types: Seq<Option<ExprType>>,
    index: nat,
    wants: Seq<(ExprId, ExprType)>,
) -> bool {
    first_unmet(types, index, wants, 0) == wants.len()
}

/// The finding about the first reference of a wrong type, where it is not to an earlier one.
pub open spec fn unmet_forward(
    types: Seq<Option<ExprType>>,
    index: nat,
    wants: Seq<(ExprId, ExprType)>,
) -> Seq<Finding> {
    let k = first_unmet(types, index, wants, 0);
    if 0 <= k < wants.len() { forward(index, wants[k].0) } else { Seq::empty() }
}

/// An expression whose references must have given types: it has a type only where they do.
pub open spec fn demanding(
    types: Seq<Option<ExprType>>,
    index: nat,
    wants: Seq<(ExprId, ExprType)>,
    message: Seq<char>,
    ty: ExprType,
) -> Verdict {
    if met(types, index, wants) {
        Verdict { ty: Some(ty), errors: Seq::empty() }
    } else {
        Verdict { ty: None, errors: unmet_forward(types, index, wants).push((at(index), message)) }
    }
}

/// An expression that is refused outright.
pub open spec fn refused(index: nat, message: Seq<char>) -> Verdict {
    Verdict { ty: None, errors: seq![(at(index), message)] }
}

pub open spec fn all_points(points: Seq<ExprId>) -> Seq<(ExprId, ExprType)> {
    points.map_values(|p: ExprId| (p, ExprType::Point))
}

pub open spec fn sat(n: nat) -> nat {
    if n <= usize::MAX { n } else { usize::MAX as nat }
}

pub open spec fn larger(a: nat, b: nat) -> nat {
    if a >= b { a } else { b }
}

/// Points of the first `n` verbs once curves are flattened.
pub open spec fn flat_count(verbs: Seq<PathVerb>, n: nat) -> nat
    decreases n,
{
    if n == 0 {
        0
    } else {
        flat_count(verbs, (n - 1) as nat) + match verbs[n - 1] {
            PathVerb::Move => 1nat,
            PathVerb::Line => 1nat,
            PathVerb::Quad => PATH_CURVE_STEPS as nat,
            PathVerb::Cubic => PATH_CURVE_STEPS as nat,
            PathVerb::Close => 0nat,
        }
    }
}

/// Most flattened points among the first `n` frames.
pub open spec fn flat_max(frames: Seq<PathData>, n: nat) -> nat
    decreases n,
{
    if n == 0 {
        0
    } else {
        larger(
            flat_max(frames, (n - 1) as nat),
            sat(flat_count(frames[n - 1]@.verbs, frames[n - 1]@.verbs.len())),
        )
    }
}

/// Most points among the first `n` frames.
pub open spec fn points_max(frames: Seq<PathData>, n: nat) -> nat
    decreases n,
{
    if n == 0 {
        0
    } else {
        larger(points_max(frames, (n - 1) as nat), frames[n - 1]@.points.len())
    }
}

/// The bound assumed for geometry of unknown size, once flattened.
pub open spec fn unknown_flat() -> nat {
    (MAX_FRAME_GEOMETRY_POINTS * PATH_CURVE_STEPS) as nat
}

/// Most points that a path expression can have once it is flattened.
pub open spec fn flat_bound(exprs: Seq<Expr>, i: int) -> nat
    decreases i,
{
    if i < 0 || i >= exprs.len() {
        unknown_flat()
    } else {
        match exprs[i] {
            Expr::Const { value: MotionValue::PathData(p) } => sat(
                flat_count(p@.verbs, p@.verbs.len()),
            ),
            Expr::PathLine { points } => points@.len(),
            Expr::PathTemplate { verbs, .. } => sat(flat_count(verbs@, verbs@.len())),
            Expr::PathCubic { .. } => (1 + PATH_CURVE_STEPS) as nat,
            Expr::PathArc { .. } => (1 + PATH_ARC_SEGMENTS * PATH_CURVE_STEPS) as nat,
            Expr::PathMorph { from, to, .. } => larger(
                if from.0 < i { flat_bound(exprs, from.0 as int) } else { unknown_flat() },
                if to.0 < i { flat_bound(exprs, to.0 as int) } else { unknown_flat() },
            ),
            Expr::PathTrajectory { frames, .. } => flat_max(frames@, frames@.len()),
            Expr::PathArea { path, .. } => sat(
                (if path.0 < i { flat_bound(exprs, path.0 as int) } else { unknown_flat() }) + 2,
            ),
            Expr::PathOffset { path, .. } => if path.0 < i {
                flat_bound(exprs, path.0 as int)
            } else {
                unknown_flat()
            },
            _ => unknown_flat(),
        }
    }
}

/// Most points that a path expression can have.
pub open spec fn point_bound(exprs: Seq<Expr>, i: int) -> nat
    decreases i,
{
    if i < 0 || i >= exprs.len() {
        MAX_FRAME_GEOMETRY_POINTS as nat
    } else {
        match exprs[i] {
            Expr::Const { value: MotionValue::PathData(p) } => p@.points.len(),
            Expr::PathMorph { from, to, .. } => larger(
                if from.0 < i { point_bound(exprs, from.0 as int) } else {
                    MAX_FRAME_GEOMETRY_POINTS as nat
                },
                if to.0 < i { point_bound(exprs, to.0 as int) } else {
                    MAX_FRAME_GEOMETRY_POINTS as nat
                },
            ),
            Expr::PathLine { points } => points@.len(),
            Expr::PathTemplate { points, .. } => points@.len(),
            Expr::PathCubic { .. } => 4,
            Expr::PathArc { .. } => (1 + PATH_ARC_SEGMENTS * 3) as nat,
            Expr::PathArea { path, .. } => sat(
                (if path.0 < i { flat_bound(exprs, path.0 as int) } else { unknown_flat() }) + 2,
            ),
            Expr::PathOffset { path, .. } => if path.0 < i {
                flat_bound(exprs, path.0 as int)
            } else {
                unknown_flat()
            },
            Expr::PathTrajectory { frames, .. } => points_max(frames@, frames@.len()),
            _ => MAX_FRAME_GEOMETRY_POINTS as nat,
        }
    }
}

/// The path that an expression is a constant of.
pub open spec fn constant_path_of(exprs: Seq<Expr>, id: ExprId) -> Option<Path> {
    if id.0 < exprs.len() {
        match exprs[id.0 as int] {
            Expr::Const { value: MotionValue::PathData(p) } => Some(p@),
            _ => None,
        }
    } else {
        None
    }
}

/// Admission of constants and inputs.
pub open spec fn leaf_verdict(e: Expr, controls: ControlsSchema, index: nat) -> Verdict {
    let path = at(index);
    match e {
        Expr::Const { value } => Verdict {
            ty: Some(ExprType::of(value@)),
            errors: found_if(!value@.finite(), path + "/value"@, "constant must be finite"@),
        },
        Expr::Context { input } => Verdict {
            ty: Some(
                match input {
                    ContextInput::PhaseActive { .. } => ExprType::Bool,
                    _ => ExprType::Number,
                },
            ),
            errors: Seq::empty(),
        },
        Expr::Prop { name } => match find(controls.props@, name@) {
            Some(control) => Verdict {
                ty: Some(ExprType::taken_by(control.control)),
                errors: Seq::empty(),
            },
            None => Verdict {
                ty: None,
                errors: seq![(path + "/name"@, "unknown props control"@)],
            },
        },
        Expr::Cue { name, field } => match find(controls.cues@, name@) {
            Some(_) => Verdict {
                ty: Some(
                    if field == CueField::Active { ExprType::Bool } else { ExprType::Number },
                ),
                errors: Seq::empty(),
            },
            None => Verdict { ty: None, errors: seq![(path + "/name"@, "unknown cue control"@)] },
        },
        Expr::Project3D { scene_key, anchor_key } => Verdict {
            ty: Some(ExprType::Point),
            errors: found_if(
                scene_key@.len() == 0,
                path + "/sceneKey"@,
                "project3d scene key is empty"@,
            ) + found_if(
                anchor_key@.len() == 0,
                path + "/anchorKey"@,
                "project3d anchor key is empty"@,
            ),
        },
        Expr::NodeBounds { key } => if key@.len() == 0 {
            refused(index, "bounds() target key is empty"@)
        } else {
            Verdict { ty: Some(ExprType::Rect), errors: Seq::empty() }
        },
        _ => Verdict { ty: None, errors: Seq::empty() },
    }
}

/// Points of the first `n` frames together.
pub open spec fn frame_points(frames: Seq<PathData>, n: nat) -> nat
    decreases n,
{
    if n == 0 {
        0
    } else {
        frame_points(frames, (n - 1) as nat) + frames[n - 1]@.points.len()
    }
}

/// Whether a trajectory keeps its budget and one topology.
pub open spec fn trajectory_valid(frames: Seq<PathData>) -> bool {
    &&& 0 < frames.len() <= MAX_GEOMETRY_TRAJECTORY_FRAMES
    &&& frame_points(frames, frames.len()) <= MAX_PATH_TRAJECTORY_POINTS
    &&& forall|i: int|
        0 <= i < frames.len() ==> (#[trigger] frames[i])@.valid() && frames[0]@.same_topology(
            frames[i]@,
        )
}

pub open spec fn area_message() -> Seq<char> {
    "area requires a bounded PathData and numeric baseline within the per-frame geometry budget"@
}

pub open spec fn offset_message() -> Seq<char> {
    "offsetPath requires bounded PathData and numeric distance within the per-frame geometry budget"@
}

pub open spec fn template_path_message() -> Seq<char> {
    "path template requires valid fixed M/L/Q/C/Z topology and bounded Point values"@
}

/// Findings about a morph whose inputs have the right types.
pub open spec fn morph_findings(exprs: Seq<Expr>, index: nat, from: ExprId, to: ExprId) -> Seq<Finding> {
    let a = constant_path_of(exprs, from);
    let b = constant_path_of(exprs, to);
    found_if(
        larger(point_bound(exprs, from.0 as int), point_bound(exprs, to.0 as int))
            > MAX_FRAME_GEOMETRY_POINTS,
        at(index),
        "per-frame path morph exceeds 2048 points; use a precomputed path trajectory"@,
    ) + found_if(
        a is Some && b is Some && !a->0.same_topology(b->0),
        at(index),
        "morphPath inputs must have identical topology"@,
    )
}

/// Admission of geometry.
pub open spec fn geometry_verdict(
    e: Expr,
    exprs: Seq<Expr>,
    types: Seq<Option<ExprType>>,
    index: nat,
) -> Verdict {
    let path = at(index);
    let n = ExprType::Number;
    let p = ExprType::Point;
    let d = ExprType::PathData;
    match e {
        Expr::MakePoint { x, y } => demanding(
            types,
            index,
            seq![(x, n), (y, n)],
            "point coordinates must be numbers"@,
            p,
        ),
        Expr::MakeRect { x, y, width, height } => demanding(
            types,
            index,
            seq![(x, n), (y, n), (width, n), (height, n)],
            "rect coordinates and size must be numbers"@,
            ExprType::Rect,
        ),
        Expr::PathLine { points } => if points@.len() < 2 || points@.len()
            > MAX_FRAME_GEOMETRY_POINTS {
            refused(index, "line requires 2..=2048 Point values"@)
        } else {
            demanding(
                types,
                index,
                all_points(points@),
                "line requires 2..=2048 Point values"@,
                d,
            )
        },
        Expr::PathTemplate { verbs, points } => if verbs@.len() == 0 || points@.len()
            > MAX_FRAME_GEOMETRY_POINTS || !fitting(verbs@, points@.len()) {
            refused(index, template_path_message())
        } else {
            demanding(types, index, all_points(points@), template_path_message(), d)
        },
        Expr::PathCubic { from, control_1, control_2, to } => demanding(
            types,
            index,
            seq![(from, p), (control_1, p), (control_2, p), (to, p)],
            "cubic requires four Point values"@,
            d,
        ),
        Expr::PathArc { center, radius, start_angle, end_angle } => demanding(
            types,
            index,
            seq![(center, p), (radius, n), (start_angle, n), (end_angle, n)],
            "arc requires Point center and numeric radius/start/end angles"@,
            d,
        ),
        Expr::PathArea { path: input, baseline } => {
            let wants = seq![(input, d), (baseline, n)];
            if met(types, index, wants) && sat(flat_bound(exprs, input.0 as int) + 2)
                > MAX_FRAME_GEOMETRY_POINTS {
                refused(index, area_message())
            } else {
                demanding(types, index, wants, area_message(), d)
            }
        },
        Expr::PathOffset { path: input, distance } => {
            let wants = seq![(input, d), (distance, n)];
            if met(types, index, wants) && flat_bound(exprs, input.0 as int)
                > MAX_FRAME_GEOMETRY_POINTS {
                refused(index, offset_message())
            } else {
                demanding(types, index, wants, offset_message(), d)
            }
        },
        Expr::PathMorph { from, to, progress } => {
            let wants = seq![(from, d), (to, d), (progress, n)];
            if met(types, index, wants) {
                Verdict { ty: Some(d), errors: morph_findings(exprs, index, from, to) }
            } else {
                demanding(types, index, wants, "morphPath requires PathData, PathData, number"@, d)
            }
        },
        Expr::PathPointAt { path: input, progress } => demanding(
            types,
            index,
            seq![(input, d), (progress, n)],
            "pointAt requires PathData and number"@,
            p,
        ),
        Expr::PathTangentAt { path: input, progress } => demanding(
            types,
            index,
            seq![(input, d), (progress, n)],
            "tangentAt requires PathData and number"@,
            ExprType::Vec2,
        ),
        Expr::PathAngleAt { path: input, progress } => demanding(
            types,
            index,
            seq![(input, d), (progress, n)],
            "motionPath angle requires PathData and number"@,
            ExprType::Angle,
        ),
        Expr::PathLength { path: input } => demanding(
            types,
            index,
            seq![(input, d)],
            "pathLength requires PathData"@,
            n,
        ),
        Expr::PathTrajectory { frames, frame } => Verdict {
            ty: Some(d),
            errors: forward(index, frame) + found_if(
                !trajectory_valid(frames@),
                path + "/frames"@,
                "path trajectory exceeds its budget or contains invalid/incompatible frames"@,
            ) + found_if(
                kid(types, index, frame) != Some(n),
                path + "/frame"@,
                "path trajectory frame must be a number"@,
            ),
        },
        _ => Verdict { ty: None, errors: Seq::empty() },
    }
}

/// Whether a geometry field exists on values of a type.
pub open spec fn has_field(ty: Option<ExprType>, field: GeometryField) -> bool {
    match field {
        GeometryField::X => ty == Some(ExprType::Point) || ty == Some(ExprType::Vec2) || ty == Some(
            ExprType::Rect,
        ),
        GeometryField::Y => ty == Some(ExprType::Point) || ty == Some(ExprType::Vec2) || ty == Some(
            ExprType::Rect,
        ),
        _ => ty == Some(ExprType::Rect),
    }
}

pub open spec fn is_equality(op: CompareOp) -> bool {
    op == CompareOp::Eq || op == CompareOp::NotEq
}

/// Findings about the operand types of a comparison. Texts compare with enum values for equality.
pub open spec fn compare_findings(
    op: CompareOp,
    lhs: Option<ExprType>,
    rhs: Option<ExprType>,
    path: Seq<char>,
) -> Seq<Finding> {
    let mixed = (lhs == Some(ExprType::Text) && rhs == Some(ExprType::Enum)) || (lhs == Some(
        ExprType::Enum,
    ) && rhs == Some(ExprType::Text));
    if lhs is None || (lhs != rhs && !(is_equality(op) && mixed)) {
        seq![(path, "comparison operands must have the same type"@)]
    } else if !is_equality(op) && lhs != Some(ExprType::Number) {
        seq![(path, "ordered comparison operands must be numbers"@)]
    } else {
        Seq::empty()
    }
}

/// Number operands that are looked at one after the other: the first that is no number decides.
pub open spec fn counting(
    types: Seq<Option<ExprType>>,
    index: nat,
    wants: Seq<(ExprId, ExprType)>,
    message: Seq<char>,
) -> Verdict {
    Verdict {
        ty: Some(ExprType::Number),
        errors: unmet_forward(types, index, wants) + found_if(
            !met(types, index, wants),
            at(index),
            message,
        ),
    }
}

pub open spec fn arithmetic(
    types: Seq<Option<ExprType>>,
    index: nat,
    lhs: ExprId,
    rhs: ExprId,
) -> Verdict {
    let ok = kid(types, index, lhs) == Some(ExprType::Number) && kid(types, index, rhs) == Some(
        ExprType::Number,
    );
    Verdict {
        ty: if ok { Some(ExprType::Number) } else { None },
        errors: forward(index, lhs) + forward(index, rhs) + found_if(
            !ok,
            at(index),
            "arithmetic operands must both be numbers"@,
        ),
    }
}

/// Admission of scalar operators.
pub open spec fn scalar_verdict(e: Expr, types: Seq<Option<ExprType>>, index: nat) -> Verdict {
    let path = at(index);
    let n = ExprType::Number;
    match e {
        Expr::GeometryField { input, field } => {
            let ok = has_field(kid(types, index, input), field);
            Verdict {
                ty: if ok { Some(n) } else { None },
                errors: forward(index, input) + found_if(
                    !ok,
                    path,
                    "geometry field does not exist on the input type"@,
                ),
            }
        },
        Expr::ToLength2 { input } => {
            let ty = kid(types, index, input);
            let ok = ty == Some(ExprType::Length2) || ty == Some(ExprType::Point) || ty == Some(
                ExprType::Vec2,
            );
            Verdict {
                ty: if ok { Some(ExprType::Length2) } else { None },
                errors: forward(index, input) + found_if(
                    !ok,
                    path,
                    "a length-pair style accepts Length2, Point, or Vec2"@,
                ),
            }
        },
        Expr::Add { lhs, rhs } => arithmetic(types, index, lhs, rhs),
        Expr::Sub { lhs, rhs } => arithmetic(types, index, lhs, rhs),
        Expr::Mul { lhs, rhs } => arithmetic(types, index, lhs, rhs),
        Expr::Div { lhs, rhs } => arithmetic(types, index, lhs, rhs),
        Expr::Neg { input } => demanding(
            types,
            index,
            seq![(input, n)],
            "negation input must be a number"@,
            n,
        ),
        Expr::Compare { op, lhs, rhs } => Verdict {
            ty: Some(ExprType::Bool),
            errors: forward(index, lhs) + forward(index, rhs) + compare_findings(
                op,
                kid(types, index, lhs),
                kid(types, index, rhs),
                path,
            ),
        },
        Expr::Select { condition, when_true, when_false } => {
            let a = kid(types, index, when_true);
            let b = kid(types, index, when_false);
            let ok = a is Some && a == b;
            Verdict {
                ty: if ok { a } else { None },
                errors: forward(index, condition) + forward(index, when_true) + forward(
                    index,
                    when_false,
                ) + found_if(
                    kid(types, index, condition) != Some(ExprType::Bool),
                    path + "/condition"@,
                    "select condition must be bool"@,
                ) + found_if(!ok, path, "select branches must have the same type"@),
            }
        },
        Expr::MathUnary { input, .. } => counting(
            types,
            index,
            seq![(input, n)],
            "math input must be a number"@,
        ),
        Expr::Noise1D { x, .. } => counting(
            types,
            index,
            seq![(x, n)],
            "math input must be a number"@,
        ),
        Expr::MathBinary { lhs, rhs, .. } => counting(
            types,
            index,
            seq![(lhs, n), (rhs, n)],
            "math inputs must be numbers"@,
        ),
        Expr::Noise2D { x, y, .. } => counting(
            types,
            index,
            seq![(x, n), (y, n)],
            "noise inputs must be numbers"@,
        ),
        Expr::FormatNumber { input, format } => Verdict {
            ty: Some(ExprType::Text),
            errors: forward(index, input) + found_if(
                kid(types, index, input) != Some(n),
                path + "/input"@,
                "format input must be a number"@,
            ) + found_if(
                !format.valid(),
                path + "/format"@,
                "number format exceeds decimals 0..=12 or width 1..=64"@,
            ),
        },
        Expr::Spring { elapsed_frames, mass, stiffness, damping } => Verdict {
            ty: Some(n),
            errors: forward(index, elapsed_frames) + found_if(
                kid(types, index, elapsed_frames) != Some(n),
                path + "/elapsedFrames"@,
                "spring time input must be a number"@,
            ) + found_if(
                !spring_valid(mass, stiffness, damping),
                path,
                "spring mass/stiffness must be finite and positive, damping non-negative"@,
            ),
        },
        _ => Verdict { ty: None, errors: Seq::empty() },
    }
}

pub open spec fn spring_valid(mass: Scalar, stiffness: Scalar, damping: Scalar) -> bool {
    mass.finite() && !mass.le_spec(num(ZERO)) && stiffness.finite() && !stiffness.le_spec(num(ZERO))
        && damping.finite() && !damping.lt_spec(num(ZERO))
}

/// Static bytes of the first `n` parts of a template.
pub open spec fn static_bytes(parts: Seq<TemplatePart>, n: nat) -> nat
    decreases n,
{
    if n == 0 {
        0
    } else {
        static_bytes(parts, (n - 1) as nat) + match parts[n - 1] {
            TemplatePart::Text { value } => byte_len(value@),
            TemplatePart::Expr { .. } => 0nat,
        }
    }
}

/// Whether a type can be written as one CSS token.
pub open spec fn is_token_type(ty: Option<ExprType>) -> bool {
    match ty {
        Some(t) => t == ExprType::Number || t == ExprType::Bool || t == ExprType::Text || t
            == ExprType::Enum || t == ExprType::Length || t == ExprType::Angle || t
            == ExprType::Color,
        None => false,
    }
}

pub open spec fn part_path(index: nat, k: nat) -> Seq<char> {
    at(index) + "/parts/"@ + numeral(k) + "/expr"@
}

/// Findings about substitutions among the first `n` parts that are not to earlier expressions.
pub open spec fn part_forwards(parts: Seq<TemplatePart>, index: nat, n: nat) -> Seq<Finding>
    decreases n,
{
    if n == 0 {
        Seq::empty()
    } else {
        let before = part_forwards(parts, index, (n - 1) as nat);
        match parts[n - 1] {
            TemplatePart::Expr { expr } => if expr.0 >= index {
                before.push(
                    (
                        part_path(index, (n - 1) as nat),
                        "expressions may only reference earlier expressions"@,
                    ),
                )
            } else {
                before
            },
            _ => before,
        }
    }
}

/// Findings about substitutions among the first `n` parts that are no CSS tokens.
pub open spec fn part_types(
    parts: Seq<TemplatePart>,
    types: Seq<Option<ExprType>>,
    index: nat,
    n: nat,
) -> Seq<Finding>
    decreases n,
{
    if n == 0 {
        Seq::empty()
    } else {
        let before = part_types(parts, types, index, (n - 1) as nat);
        match parts[n - 1] {
            TemplatePart::Expr { expr } => if expr.0 < index && !is_token_type(
                types[expr.0 as int],
            ) {
                before.push(
                    (
                        part_path(index, (n - 1) as nat),
                        "template substitutions must be scalar CSS-token values"@,
                    ),
                )
            } else {
                before
            },
            _ => before,
        }
    }
}

/// Admission of a template.
pub open spec fn template_verdict(
    parts: Seq<TemplatePart>,
    types: Seq<Option<ExprType>>,
    index: nat,
) -> Verdict {
    Verdict {
        ty: Some(ExprType::Text),
        errors: found_if(
            parts.len() == 0 || parts.len() > MAX_TEMPLATE_PARTS || static_bytes(
                parts,
                parts.len(),
            ) > MAX_TEMPLATE_STATIC_BYTES,
            at(index) + "/parts"@,
            "template must contain 1..=64 parts and at most 8192 static UTF-8 bytes"@,
        ) + part_forwards(parts, index, parts.len()) + part_types(
            parts,
            types,
            index,
            parts.len(),
        ),
    }
}

pub open spec fn stop_path(index: nat, k: nat) -> Seq<char> {
    at(index) + "/stops/"@ + numeral(k)
}

/// Whether stop `k` is finite, behind the stop before it, and of the type of the first stop.
pub open spec fn stop_valid(stops: Seq<InterpolateStop>, k: int) -> bool {
    &&& stops[k].input.finite()
    &&& k > 0 ==> !stops[k].input.le_spec(stops[k - 1].input)
    &&& stops[k].output@.finite()
    &&& ExprType::of(stops[k].output@) == ExprType::of(stops[0].output@)
}

pub open spec fn stop_findings(stops: Seq<InterpolateStop>, index: nat, n: nat) -> Seq<Finding>
    decreases n,
{
    if n == 0 {
        Seq::empty()
    } else {
        stop_findings(stops, index, (n - 1) as nat) + found_if(
            !stop_valid(stops, n - 1),
            stop_path(index, (n - 1) as nat),
            "stops must be finite, strictly increasing, and type-consistent"@,
        )
    }
}

/// Whether a path stop cannot be blended with the first stop.
pub open spec fn stop_unblendable(stops: Seq<InterpolateStop>, k: int) -> bool {
    match (stops[0].output@, stops[k].output@) {
        (Value::PathData(first), Value::PathData(p)) => p.points.len() > MAX_FRAME_GEOMETRY_POINTS
            || !first.same_topology(p),
        _ => false,
    }
}

pub open spec fn blend_findings(stops: Seq<InterpolateStop>, index: nat, n: nat) -> Seq<Finding>
    decreases n,
{
    if n == 0 {
        Seq::empty()
    } else {
        blend_findings(stops, index, (n - 1) as nat) + found_if(
            stop_unblendable(stops, n - 1),
            stop_path(index, (n - 1) as nat),
            "PathData interpolation requires identical topology within the per-frame geometry budget"@,
        )
    }
}

pub open spec fn easing_findings(easings: Seq<MotionEasing>, index: nat, n: nat) -> Seq<Finding>
    decreases n,
{
    if n == 0 {
        Seq::empty()
    } else {
        easing_findings(easings, index, (n - 1) as nat) + found_if(
            !easings[n - 1].finite(),
            at(index) + "/easings/"@ + numeral((n - 1) as nat),
            "easing control points must be finite"@,
        )
    }
}

/// Admission of an interpolation.
pub open spec fn interpolate_verdict(
    input: ExprId,
    stops: Seq<InterpolateStop>,
    easings: Seq<MotionEasing>,
    types: Seq<Option<ExprType>>,
    index: nat,
) -> Verdict {
    let path = at(index);
    let head = forward(index, input) + found_if(
        kid(types, index, input) != Some(ExprType::Number),
        path + "/input"@,
        "interpolate input must be a number"@,
    );
    if stops.len() < 2 {
        Verdict {
            ty: None,
            errors: head.push((path + "/stops"@, "interpolate needs at least two stops"@)),
        }
    } else {
        let ty = ExprType::of(stops[0].output@);
        Verdict {
            ty: Some(ty),
            errors: head + stop_findings(stops, index, stops.len()) + blend_findings(
                stops,
                index,
                stops.len(),
            ) + found_if(
                !ty.continuous(),
                path + "/stops"@,
                "interpolate outputs must be continuous values"@,
            ) + found_if(
                easings.len() != 0 && easings.len() + 1 != stops.len(),
                path + "/easings"@,
                "easings must be empty or have one entry per segment"@,
            ) + easing_findings(easings, index, easings.len()),
        }
    }
}

/// What admission says of expression `index`, given the types of the earlier ones.
#[verifier::opaque]
pub open spec fn verdict(
    exprs: Seq<Expr>,
    controls: ControlsSchema,
    types: Seq<Option<ExprType>>,
    index: nat,
) -> Verdict {
    let e = exprs[index as int];
    match e {
        Expr::Const { .. } => leaf_verdict(e, controls, index),
        Expr::Context { .. } => leaf_verdict(e, controls, index),
        Expr::Prop { .. } => leaf_verdict(e, controls, index),
        Expr::Cue { .. } => leaf_verdict(e, controls, index),
        Expr::Project3D { .. } => leaf_verdict(e, controls, index),
        Expr::NodeBounds { .. } => leaf_verdict(e, controls, index),
        Expr::MakePoint { .. } => geometry_verdict(e, exprs, types, index),
        Expr::MakeRect { .. } => geometry_verdict(e, exprs, types, index),
        Expr::PathLine { .. } => geometry_verdict(e, exprs, types, index),
        Expr::PathTemplate { .. } => geometry_verdict(e, exprs, types, index),
        Expr::PathCubic { .. } => geometry_verdict(e, exprs, types, index),
        Expr::PathArc { .. } => geometry_verdict(e, exprs, types, index),
        Expr::PathArea { .. } => geometry_verdict(e, exprs, types, index),
        Expr::PathOffset { .. } => geometry_verdict(e, exprs, types, index),
        Expr::PathMorph { .. } => geometry_verdict(e, exprs, types, index),
        Expr::PathPointAt { .. } => geometry_verdict(e, exprs, types, index),
        Expr::PathTangentAt { .. } => geometry_verdict(e, exprs, types, index),
        Expr::PathAngleAt { .. } => geometry_verdict(e, exprs, types, index),
        Expr::PathLength { .. } => geometry_verdict(e, exprs, types, index),
        Expr::PathTrajectory { .. } => geometry_verdict(e, exprs, types, index),
        Expr::Template { parts } => template_verdict(parts@, types, index),
        Expr::Interpolate { input, stops, easings, .. } => interpolate_verdict(
            input,
            stops@,
            easings@,
            types,
            index,
        ),
        _ => scalar_verdict(e, types, index),
    }
}

/// The types of the first `n` expressions.
pub open spec fn types_of(exprs: Seq<Expr>, controls: ControlsSchema, n: nat) -> Seq<
    Option<ExprType>,
>
    decreases n,
{
    if n == 0 {
        Seq::empty()
    } else {
        let before = types_of(exprs, controls, (n - 1) as nat);
        before.push(verdict(exprs, controls, before, (n - 1) as nat).ty)
    }
}

/// The findings about expression `i`.
pub open spec fn errors_at(exprs: Seq<Expr>, controls: ControlsSchema, i: nat) -> Seq<Finding> {
    verdict(exprs, controls, types_of(exprs, controls, i), i).errors
}

/// The findings about the first `n` expressions, in order.
pub open spec fn errors_of(exprs: Seq<Expr>, controls: ControlsSchema, n: nat) -> Seq<Finding>
    decreases n,
{
    if n == 0 {
        Seq::empty()
    } else {
        errors_of(exprs, controls, (n - 1) as nat) + errors_at(exprs, controls, (n - 1) as nat)
    }
}

/// Whether an expression and everything it refers to passed admission.
pub open spec fn admitted(exprs: Seq<Expr>, controls: ControlsSchema, i: int) -> bool
    decreases i,
{
    if i < 0 || i >= exprs.len() {
        false
    } else {
        errors_at(exprs, controls, i as nat).len() == 0 && forall|k: int|
            0 <= k < exprs[i].refs().len() ==> (#[trigger] exprs[i].refs()[k]).0 < i && admitted(
                exprs,
                controls,
                exprs[i].refs()[k].0 as int,
            )
    }
}

/// An expression without findings has a type.
pub proof fn clean_expressions_are_typed(
    exprs: Seq<Expr>,
    controls: ControlsSchema,
    types: Seq<Option<ExprType>>,
    index: nat,
)
    requires
        verdict(exprs, controls, types, index).errors.len() == 0,
    ensures
        verdict(exprs, controls, types, index).ty is Some,
{
    reveal(verdict);
}

proof fn met_refs_are_earlier(
    types: Seq<Option<ExprType>>,
    index: nat,
    wants: Seq<(ExprId, ExprType)>,
    from: int,
)
    requires
        0 <= from <= wants.len(),
        first_unmet(types, index, wants, from) == wants.len(),
    ensures
        forall|k: int| from <= k < wants.len() ==> (#[trigger] wants[k]).0.0 < index,
    decreases wants.len() - from,
{
    if from < wants.len() {
        met_refs_are_earlier(types, index, wants, from + 1);
    }
}

proof fn part_refs_are_earlier(parts: Seq<TemplatePart>, index: nat, n: nat)
    requires
        n <= parts.len(),
        part_forwards(parts, index, n).len() == 0,
    ensures
        forall|k: int|
            0 <= k < crate::expr::substitutions(parts, n).len() ==> (
            #[trigger] crate::expr::substitutions(parts, n)[k]).0 < index,
    decreases n,
{
    if n > 0 {
        part_refs_are_earlier(parts, index, (n - 1) as nat);
        let before = crate::expr::substitutions(parts, (n - 1) as nat);
        let all = crate::expr::substitutions(parts, n);
        assert forall|k: int| 0 <= k < all.len() implies (#[trigger] all[k]).0 < index by {
            if k < before.len() {
                assert(all[k] == before[k]);
            }
        }
    }
}

proof fn demanding_refers_back(
    types: Seq<Option<ExprType>>,
    index: nat,
    wants: Seq<(ExprId, ExprType)>,
    refs: Seq<ExprId>,
)
    requires
        met(types, index, wants),
        refs.len() == wants.len(),
        forall|k: int| 0 <= k < refs.len() ==> (#[trigger] refs[k]) == wants[k].0,
    ensures
        forall|k: int| 0 <= k < refs.len() ==> (#[trigger] refs[k]).0 < index,
{
    met_refs_are_earlier(types, index, wants, 0);
    assert forall|k: int| 0 <= k < refs.len() implies (#[trigger] refs[k]).0 < index by {
        assert(wants[k].0.0 < index);
    }
}

proof fn geometry_refers_back(
    e: Expr,
    exprs: Seq<Expr>,
    types: Seq<Option<ExprType>>,
    index: nat,
)
    requires
        geometry_verdict(e, exprs, types, index).errors.len() == 0,
        e is MakePoint || e is MakeRect || e is PathLine || e is PathTemplate || e is PathCubic
            || e is PathArc || e is PathArea || e is PathOffset || e is PathMorph
            || e is PathPointAt || e is PathTangentAt || e is PathAngleAt || e is PathLength
            || e is PathTrajectory,
    ensures
        forall|k: int| 0 <= k < e.refs().len() ==> (#[trigger] e.refs()[k]).0 < index,
{
    let n = ExprType::Number;
    let p = ExprType::Point;
    let d = ExprType::PathData;
    let refs = e.refs();
    match e {
        Expr::MakePoint { x, y } => {
            demanding_refers_back(types, index, seq![(x, n), (y, n)], refs);
        },
        Expr::MakeRect { x, y, width, height } => {
            demanding_refers_back(
                types,
                index,
                seq![(x, n), (y, n), (width, n), (height, n)],
                refs,
            );
        },
        Expr::PathLine { points } => {
            demanding_refers_back(types, index, all_points(points@), refs);
        },
        Expr::PathTemplate { points, .. } => {
            demanding_refers_back(types, index, all_points(points@), refs);
        },
        Expr::PathCubic { from, control_1, control_2, to } => {
            demanding_refers_back(
                types,
                index,
                seq![(from, p), (control_1, p), (control_2, p), (to, p)],
                refs,
            );
        },
        Expr::PathArc { center, radius, start_angle, end_angle } => {
            demanding_refers_back(
                types,
                index,
                seq![(center, p), (radius, n), (start_angle, n), (end_angle, n)],
                refs,
            );
        },
        Expr::PathArea { path, baseline } => {
            demanding_refers_back(types, index, seq![(path, d), (baseline, n)], refs);
        },
        Expr::PathOffset { path, distance } => {
            demanding_refers_back(types, index, seq![(path, d), (distance, n)], refs);
        },
        Expr::PathMorph { from, to, progress } => {
            demanding_refers_back(types, index, seq![(from, d), (to, d), (progress, n)], refs);
        },
        Expr::PathPointAt { path, progress } => {
            demanding_refers_back(types, index, seq![(path, d), (progress, n)], refs);
        },
        Expr::PathTangentAt { path, progress } => {
            demanding_refers_back(types, index, seq![(path, d), (progress, n)], refs);
        },
        Expr::PathAngleAt { path, progress } => {
            demanding_refers_back(types, index, seq![(path, d), (progress, n)], refs);
        },
        Expr::PathLength { path } => {
            demanding_refers_back(types, index, seq![(path, d)], refs);
        },
        _ => {},
    }
}

proof fn scalar_refers_back(e: Expr, types: Seq<Option<ExprType>>, index: nat)
    requires
        scalar_verdict(e, types, index).errors.len() == 0,
        e is GeometryField || e is ToLength2 || e is Add || e is Sub || e is Mul || e is Div
            || e is Neg || e is Compare || e is Select || e is MathUnary || e is MathBinary
            || e is Noise1D || e is Noise2D || e is FormatNumber || e is Spring,
    ensures
        forall|k: int| 0 <= k < e.refs().len() ==> (#[trigger] e.refs()[k]).0 < index,
{
    let n = ExprType::Number;
    let refs = e.refs();
    match e {
        Expr::Neg { input } => {
            demanding_refers_back(types, index, seq![(input, n)], refs);
        },
        Expr::MathUnary { input, .. } => {
            demanding_refers_back(types, index, seq![(input, n)], refs);
        },
        Expr::Noise1D { x, .. } => {
            demanding_refers_back(types, index, seq![(x, n)], refs);
        },
        Expr::MathBinary { lhs, rhs, .. } => {
            demanding_refers_back(types, index, seq![(lhs, n), (rhs, n)], refs);
        },
        Expr::Noise2D { x, y, .. } => {
            demanding_refers_back(types, index, seq![(x, n), (y, n)], refs);
        },
        _ => {},
    }
}

/// An expression without findings refers to earlier expressions only.
pub proof fn clean_expressions_refer_back(
    exprs: Seq<Expr>,
    controls: ControlsSchema,
    types: Seq<Option<ExprType>>,
    index: nat,
)
    requires
        verdict(exprs, controls, types, index).errors.len() == 0,
    ensures
        forall|k: int|
            0 <= k < exprs[index as int].refs().len() ==> (#[trigger] exprs[index as int].refs()[k]).0
                < index,
{
    let e = exprs[index as int];
    reveal(verdict);
    match e {
        Expr::Const { .. } => {},
        Expr::Context { .. } => {},
        Expr::Prop { .. } => {},
        Expr::Cue { .. } => {},
        Expr::Project3D { .. } => {},
        Expr::NodeBounds { .. } => {},
        Expr::Template { parts } => {
            part_refs_are_earlier(parts@, index, parts@.len());
        },
        Expr::Interpolate { input, .. } => {
            assert(input.0 < index);
        },
        Expr::GeometryField { .. } => scalar_refers_back(e, types, index),
        Expr::ToLength2 { .. } => scalar_refers_back(e, types, index),
        Expr::Add { .. } => scalar_refers_back(e, types, index),
        Expr::Sub { .. } => scalar_refers_back(e, types, index),
        Expr::Mul { .. } => scalar_refers_back(e, types, index),
        Expr::Div { .. } => scalar_refers_back(e, types, index),
        Expr::Neg { .. } => scalar_refers_back(e, types, index),
        Expr::Compare { .. } => scalar_refers_back(e, types, index),
        Expr::Select { .. } => scalar_refers_back(e, types, index),
        Expr::MathUnary { .. } => scalar_refers_back(e, types, index),
        Expr::MathBinary { .. } => scalar_refers_back(e, types, index),
        Expr::Noise1D { .. } => scalar_refers_back(e, types, index),
        Expr::Noise2D { .. } => scalar_refers_back(e, types, index),
        Expr::FormatNumber { .. } => scalar_refers_back(e, types, index),
        Expr::Spring { .. } => scalar_refers_back(e, types, index),
        _ => geometry_refers_back(e, exprs, types, index),
    }
}

proof fn no_errors_before(exprs: Seq<Expr>, controls: ControlsSchema, i: nat, n: nat)
    requires
        i < n,
        errors_of(exprs, controls, n).len() == 0,
    ensures
        errors_at(exprs, controls, i).len() == 0,
    decreases n - i,
{
    if i + 1 < n {
        no_errors_before(exprs, controls, i, (n - 1) as nat);
    }
}

/// An arena without findings is admitted throughout: every expression refers to earlier, admitted
/// expressions only and has a type.
pub proof fn clean_arena_is_admitted(exprs: Seq<Expr>, controls: ControlsSchema, i: int)
    requires
        errors_of(exprs, controls, exprs.len()).len() == 0,
        0 <= i < exprs.len(),
    ensures
        admitted(exprs, controls, i),
        verdict(exprs, controls, types_of(exprs, controls, i as nat), i as nat).ty is Some,
    decreases i,
{
    no_errors_before(exprs, controls, i as nat, exprs.len());
    let types = types_of(exprs, controls, i as nat);
    clean_expressions_are_typed(exprs, controls, types, i as nat);
    clean_expressions_refer_back(exprs, controls, types, i as nat);
    let refs = exprs[i].refs();
    assert forall|k: int| 0 <= k < refs.len() implies (#[trigger] refs[k]).0 < i && admitted(
        exprs,
        controls,
        refs[k].0 as int,
    ) by {
        clean_arena_is_admitted(exprs, controls, refs[k].0 as int);
    }
}

/// Admission is inherited: what an admitted expression refers to stands before it and is admitted.
pub proof fn admission_is_hereditary(exprs: Seq<Expr>, controls: ControlsSchema, i: int, k: int)
    requires
        admitted(exprs, controls, i),
        0 <= k < exprs[i].refs().len(),
    ensures
        exprs[i].refs()[k].0 < i,
        admitted(exprs, controls, exprs[i].refs()[k].0 as int),
{
    assert(exprs[i].refs()[k].0 < i);
}

} // verus!
