//! Which expressions are sound: what each kind takes, what type it has, and what it refers to.

use vstd::prelude::*;

use crate::admission::{
    constant_path_of, first_unmet, flat_bound, frame_points, point_bound, static_bytes, verdict, Verdict,
};
use crate::expr::{
    eval_policy, frame_invariant_spec, reads_layout, reads_runtime, reads_unit, CompareOp, ContextInput,
    CueField, Expr, ExprId, ExprType, GeometryField, InterpolateStop, NumberFormat,
    TemplatePart,
};
use crate::path::{GeometryEvalPolicy, PathData, PathVerb};
use crate::table::find;
use crate::value::{ControlType, ControlsSchema, MotionEasing, Value};

verus! {

/// Whether an expression has a type and nothing is wrong with it.
pub open spec fn sound_as(v: Verdict, ty: ExprType) -> bool {
    v.ty == Some(ty) && v.errors.len() == 0
}

/// Whether a reference goes back to an expression of this type.
pub open spec fn takes(types: Seq<Option<ExprType>>, index: nat, id: ExprId, ty: ExprType) -> bool {
    id.0 < index && types[id.0 as int] == Some(ty)
}

/// The type of a value.
pub open spec fn type_of(v: Value) -> ExprType {
    match v {
        Value::Number(_) => ExprType::Number,
        Value::Bool(_) => ExprType::Bool,
        Value::Str(_) => ExprType::Text,
        Value::Enum(_) => ExprType::Enum,
        Value::Length(_) => ExprType::Length,
        Value::Length2(_) => ExprType::Length2,
        Value::Angle(_) => ExprType::Angle,
        Value::Color(_) => ExprType::Color,
        Value::Point(_) => ExprType::Point,
        Value::Vec2(_) => ExprType::Vec2,
        Value::Rect(_) => ExprType::Rect,
        Value::PathData(_) => ExprType::PathData,
    }
}

/// Whether a control has values of a type.
pub open spec fn control_has(c: ControlType, ty: ExprType) -> bool {
    match ty {
        ExprType::Number => c is Number,
        ExprType::Text => c is Text || c is NodeTarget,
        ExprType::Bool => c is Bool,
        ExprType::Color => c is Color,
        ExprType::Length => c is Length,
        ExprType::Angle => c is Angle,
        ExprType::Point => c is Point,
        ExprType::Rect => c is Rect,
        ExprType::PathData => c is PathData,
        ExprType::Enum => c is Select,
        _ => false,
    }
}

/// Constants have the type of their value, which is finite; inputs have the type of what they read, which
/// is declared.
pub proof fn inputs_have_the_type_they_read(
    exprs: Seq<Expr>,
    controls: ControlsSchema,
    types: Seq<Option<ExprType>>,
    index: nat,
    ty: ExprType,
)
    requires
        index < exprs.len(),
    ensures
        ({
            let sound = sound_as(verdict(exprs, controls, types, index), ty);
            match exprs[index as int] {
                Expr::Const { value } => sound <==> ty == type_of(value@) && value@.finite(),
                Expr::Context { input } => sound <==> ty == if input is PhaseActive {
                    ExprType::Bool
                } else {
                    ExprType::Number
                },
                Expr::Prop { name } => sound <==> find(controls.props@, name@) is Some && control_has(
                    find(controls.props@, name@)->0.control,
                    ty,
                ),
                Expr::Cue { name, field } => sound <==> find(controls.cues@, name@) is Some && ty
                    == if field == CueField::Active {
                    ExprType::Bool
                } else {
                    ExprType::Number
                },
                Expr::NodeBounds { key } => sound <==> ty == ExprType::Rect && key@.len() > 0,
                Expr::Project3D { scene_key, anchor_key } => sound <==> ty == ExprType::Point
                    && scene_key@.len() > 0 && anchor_key@.len() > 0,
                _ => true,
            }
        }),
{
    reveal(verdict);
}

proof fn met_is_all(
    types: Seq<Option<ExprType>>,
    index: nat,
    wants: Seq<(ExprId, ExprType)>,
    from: int,
)
    requires
        0 <= from <= wants.len(),
    ensures
        first_unmet(types, index, wants, from) == wants.len() <==> forall|k: int|
            from <= k < wants.len() ==> #[trigger] wanted(types, index, wants, k),
    decreases wants.len() - from,
{
    if from < wants.len() {
        met_is_all(types, index, wants, from + 1);
        if first_unmet(types, index, wants, from) == wants.len() {
            assert forall|k: int| from <= k < wants.len() implies #[trigger] wanted(
                types,
                index,
                wants,
                k,
            ) by {
                if k > from {
                    first_unmet_is_inside(types, index, wants, from + 1);
                }
            }
        } else {
            if forall|k: int| from <= k < wants.len() ==> #[trigger] wanted(types, index, wants, k) {
                assert(wanted(types, index, wants, from));
            }
        }
    }
}

proof fn first_unmet_is_inside(
    types: Seq<Option<ExprType>>,
    index: nat,
    wants: Seq<(ExprId, ExprType)>,
    from: int,
)
    requires
        0 <= from <= wants.len(),
    ensures
        from <= first_unmet(types, index, wants, from) <= wants.len(),
    decreases wants.len() - from,
{
    if from < wants.len() {
        first_unmet_is_inside(types, index, wants, from + 1);
    }
}

spec fn wanted(
    types: Seq<Option<ExprType>>,
    index: nat,
    wants: Seq<(ExprId, ExprType)>,
    k: int,
) -> bool {
    takes(types, index, wants[k].0, wants[k].1)
}

/// What a geometry expression of fixed inputs takes, and the type that it then has.
pub open spec fn geometry_takes(
    e: Expr,
    types: Seq<Option<ExprType>>,
    index: nat,
    ty: ExprType,
) -> bool {
    let number = ExprType::Number;
    let point = ExprType::Point;
    let path = ExprType::PathData;
    match e {
        Expr::MakePoint { x, y } => {
            &&& ty == point
            &&& takes(types, index, x, number) && takes(types, index, y, number)
        },
        Expr::MakeRect { x, y, width, height } => {
            &&& ty == ExprType::Rect
            &&& takes(types, index, x, number) && takes(types, index, y, number)
            &&& takes(types, index, width, number) && takes(types, index, height, number)
        },
        Expr::PathCubic { from, control_1, control_2, to } => {
            &&& ty == path
            &&& takes(types, index, from, point) && takes(types, index, to, point)
            &&& takes(types, index, control_1, point) && takes(types, index, control_2, point)
        },
        Expr::PathArc { center, radius, start_angle, end_angle } => {
            &&& ty == path
            &&& takes(types, index, center, point) && takes(types, index, radius, number)
            &&& takes(types, index, start_angle, number) && takes(types, index, end_angle, number)
        },
        Expr::PathPointAt { path: p, progress } => {
            &&& ty == point
            &&& takes(types, index, p, path) && takes(types, index, progress, number)
        },
        Expr::PathTangentAt { path: p, progress } => {
            &&& ty == ExprType::Vec2
            &&& takes(types, index, p, path) && takes(types, index, progress, number)
        },
        Expr::PathAngleAt { path: p, progress } => {
            &&& ty == ExprType::Angle
            &&& takes(types, index, p, path) && takes(types, index, progress, number)
        },
        Expr::PathLength { path: p } => ty == number && takes(types, index, p, path),
        _ => false,
    }
}

/// Whether an expression is geometry of fixed inputs.
pub open spec fn is_fixed_geometry(e: Expr) -> bool {
    ||| e is MakePoint
    ||| e is MakeRect
    ||| e is PathCubic
    ||| e is PathArc
    ||| e is PathPointAt
    ||| e is PathTangentAt
    ||| e is PathAngleAt
    ||| e is PathLength
}

/// Geometry of fixed inputs is sound exactly where each input is what it takes.
pub proof fn geometry_takes_its_inputs(
    exprs: Seq<Expr>,
    controls: ControlsSchema,
    types: Seq<Option<ExprType>>,
    index: nat,
    ty: ExprType,
)
    requires
        index < exprs.len(),
        is_fixed_geometry(exprs[index as int]),
    ensures
        sound_as(verdict(exprs, controls, types, index), ty) <==> geometry_takes(
            exprs[index as int],
            types,
            index,
            ty,
        ),
{
    reveal(verdict);
    reveal_with_fuel(first_unmet, 5);
}

/// Whether all points of a list go back to points.
pub open spec fn take_points(
    types: Seq<Option<ExprType>>,
    index: nat,
    points: Seq<ExprId>,
) -> bool {
    forall|k: int| 0 <= k < points.len() ==> takes(types, index, #[trigger] points[k], ExprType::Point)
}

proof fn points_are_met(types: Seq<Option<ExprType>>, index: nat, points: Seq<ExprId>)
    ensures
        crate::admission::met(types, index, crate::admission::all_points(points)) <==> take_points(
            types,
            index,
            points,
        ),
{
    let wants = crate::admission::all_points(points);
    met_is_all(types, index, wants, 0);
    if take_points(types, index, points) {
        assert forall|k: int| 0 <= k < wants.len() implies #[trigger] wanted(types, index, wants, k) by {
            assert(takes(types, index, points[k], ExprType::Point));
        }
    }
    if crate::admission::met(types, index, wants) {
        assert forall|k: int| 0 <= k < points.len() implies takes(
            types,
            index,
            #[trigger] points[k],
            ExprType::Point,
        ) by {
            assert(wanted(types, index, wants, k));
        }
    }
}

/// A line takes 2 to 2048 points; a template of verbs takes as many points as its verbs do, up to 2048,
/// and begins with a move.
pub proof fn lines_and_templates_take_points(
    exprs: Seq<Expr>,
    controls: ControlsSchema,
    types: Seq<Option<ExprType>>,
    index: nat,
    ty: ExprType,
)
    requires
        index < exprs.len(),
    ensures
        ({
            let sound = sound_as(verdict(exprs, controls, types, index), ty);
            match exprs[index as int] {
                Expr::PathLine { points } => sound <==> ty == ExprType::PathData && 2 <= points@.len()
                    <= 2048 && take_points(types, index, points@),
                Expr::PathTemplate { verbs, points } => sound <==> ty == ExprType::PathData
                    && verbs@.len() > 0 && verbs@[0] == PathVerb::Move && points@.len() <= 2048
                    && points@.len() == crate::path::points_taken(verbs@, verbs@.len())
                    && take_points(types, index, points@),
                _ => true,
            }
        }),
{
    reveal(verdict);
    match exprs[index as int] {
        Expr::PathLine { points } => {
            points_are_met(types, index, points@);
        },
        Expr::PathTemplate { verbs, points } => {
            points_are_met(types, index, points@);
        },
        _ => {},
    }
}

/// Areas and offsets take a path that stays within 2048 points once it is flattened; a morph takes two
/// paths within that bound, of one topology where both are constant.
pub proof fn path_operations_stay_in_budget(
    exprs: Seq<Expr>,
    controls: ControlsSchema,
    types: Seq<Option<ExprType>>,
    index: nat,
    ty: ExprType,
)
    requires
        index < exprs.len() <= usize::MAX,
    ensures
        ({
            let sound = sound_as(verdict(exprs, controls, types, index), ty);
            match exprs[index as int] {
                Expr::PathArea { path, baseline } => sound <==> ty == ExprType::PathData && takes(
                    types,
                    index,
                    path,
                    ExprType::PathData,
                ) && takes(types, index, baseline, ExprType::Number) && flat_bound(
                    exprs,
                    path.0 as int,
                ) + 2 <= 2048,
                Expr::PathOffset { path, distance } => sound <==> ty == ExprType::PathData && takes(
                    types,
                    index,
                    path,
                    ExprType::PathData,
                ) && takes(types, index, distance, ExprType::Number) && flat_bound(
                    exprs,
                    path.0 as int,
                ) <= 2048,
                Expr::PathMorph { from, to, progress } => sound <==> {
                    let (a, b) = (constant_path_of(exprs, from), constant_path_of(exprs, to));
                    &&& ty == ExprType::PathData
                    &&& takes(types, index, from, ExprType::PathData)
                    &&& takes(types, index, to, ExprType::PathData)
                    &&& takes(types, index, progress, ExprType::Number)
                    &&& point_bound(exprs, from.0 as int) <= 2048
                    &&& point_bound(exprs, to.0 as int) <= 2048
                    &&& a is Some && b is Some ==> a->0.verbs == b->0.verbs && a->0.points.len()
                        == b->0.points.len()
                },
                _ => true,
            }
        }),
{
    reveal(verdict);
    reveal_with_fuel(first_unmet, 4);
}

/// A trajectory takes a frame number, and holds valid frames of one topology within its budget.
pub proof fn trajectories_hold_valid_frames(
    exprs: Seq<Expr>,
    controls: ControlsSchema,
    types: Seq<Option<ExprType>>,
    index: nat,
    ty: ExprType,
)
    requires
        index < exprs.len(),
        exprs[index as int] is PathTrajectory,
    ensures
        ({
            let frames = exprs[index as int]->PathTrajectory_frames@;
            let frame = exprs[index as int]->frame;
            sound_as(verdict(exprs, controls, types, index), ty) <==> {
                &&& ty == ExprType::PathData
                &&& takes(types, index, frame, ExprType::Number)
                &&& 0 < frames.len() <= 18_000
                &&& frame_points(frames, frames.len()) <= 2_000_000
                &&& forall|i: int|
                    0 <= i < frames.len() ==> (#[trigger] frames[i])@.valid() && frames[0]@.verbs
                        == frames[i]@.verbs && frames[0]@.points.len() == frames[i]@.points.len()
            }
        }),
{
    reveal(verdict);
    let frames = exprs[index as int]->PathTrajectory_frames@;
    if forall|i: int|
        0 <= i < frames.len() ==> (#[trigger] frames[i])@.valid() && frames[0]@.verbs
            == frames[i]@.verbs && frames[0]@.points.len() == frames[i]@.points.len() {
        assert forall|i: int| 0 <= i < frames.len() implies (#[trigger] frames[i])@.valid()
            && frames[0]@.same_topology(frames[i]@) by {
            assert(frames[i]@.valid());
        }
    }
    if crate::admission::trajectory_valid(frames) {
        assert forall|i: int| 0 <= i < frames.len() implies (#[trigger] frames[i])@.valid()
            && frames[0]@.verbs == frames[i]@.verbs && frames[0]@.points.len()
            == frames[i]@.points.len() by {
            assert(frames[i]@.valid() && frames[0]@.same_topology(frames[i]@));
        }
    }
}

/// What a scalar expression takes, and the type that it then has.
pub open spec fn scalar_takes(
    e: Expr,
    types: Seq<Option<ExprType>>,
    index: nat,
    ty: ExprType,
) -> bool {
    let number = ExprType::Number;
    match e {
        Expr::Add { lhs, rhs } => ty == number && takes(types, index, lhs, number) && takes(
            types,
            index,
            rhs,
            number,
        ),
        Expr::Sub { lhs, rhs } => ty == number && takes(types, index, lhs, number) && takes(
            types,
            index,
            rhs,
            number,
        ),
        Expr::Mul { lhs, rhs } => ty == number && takes(types, index, lhs, number) && takes(
            types,
            index,
            rhs,
            number,
        ),
        Expr::Div { lhs, rhs } => ty == number && takes(types, index, lhs, number) && takes(
            types,
            index,
            rhs,
            number,
        ),
        Expr::Neg { input } => ty == number && takes(types, index, input, number),
        Expr::MathUnary { input, .. } => ty == number && takes(types, index, input, number),
        Expr::Noise1D { x, .. } => ty == number && takes(types, index, x, number),
        Expr::MathBinary { lhs, rhs, .. } => ty == number && takes(types, index, lhs, number)
            && takes(types, index, rhs, number),
        Expr::Noise2D { x, y, .. } => ty == number && takes(types, index, x, number) && takes(
            types,
            index,
            y,
            number,
        ),
        Expr::GeometryField { input, field } => ty == number && (takes(
            types,
            index,
            input,
            ExprType::Rect,
        ) || ((field == GeometryField::X || field == GeometryField::Y) && (takes(
            types,
            index,
            input,
            ExprType::Point,
        ) || takes(types, index, input, ExprType::Vec2)))),
        Expr::ToLength2 { input } => ty == ExprType::Length2 && (takes(
            types,
            index,
            input,
            ExprType::Length2,
        ) || takes(types, index, input, ExprType::Point) || takes(
            types,
            index,
            input,
            ExprType::Vec2,
        )),
        Expr::Select { condition, when_true, when_false } => takes(
            types,
            index,
            condition,
            ExprType::Bool,
        ) && takes(types, index, when_true, ty) && takes(types, index, when_false, ty),
        Expr::FormatNumber { input, format } => {
            &&& ty == ExprType::Text
            &&& takes(types, index, input, number)
            &&& match format {
                NumberFormat::Number { decimals, .. } => decimals <= 12,
                NumberFormat::Percent { decimals, .. } => decimals <= 12,
                NumberFormat::Pad { width } => 1 <= width <= 64,
            }
        },
        Expr::Spring { elapsed_frames, mass, stiffness, damping } => {
            &&& ty == number
            &&& takes(types, index, elapsed_frames, number)
            &&& mass.finite() && mass.order() > 0
            &&& stiffness.finite() && stiffness.order() > 0
            &&& damping.finite() && damping.order() >= 0
        },
        _ => false,
    }
}

/// Whether an expression is a scalar operation of fixed inputs.
pub open spec fn is_fixed_scalar(e: Expr) -> bool {
    ||| e is Add
    ||| e is Sub
    ||| e is Mul
    ||| e is Div
    ||| e is Neg
    ||| e is MathUnary
    ||| e is Noise1D
    ||| e is MathBinary
    ||| e is Noise2D
    ||| e is GeometryField
    ||| e is ToLength2
    ||| e is Select
    ||| e is FormatNumber
    ||| e is Spring
}

/// A scalar operation is sound exactly where each input is what it takes.
pub proof fn operations_take_their_inputs(
    exprs: Seq<Expr>,
    controls: ControlsSchema,
    types: Seq<Option<ExprType>>,
    index: nat,
    ty: ExprType,
)
    requires
        index < exprs.len(),
        is_fixed_scalar(exprs[index as int]),
    ensures
        sound_as(verdict(exprs, controls, types, index), ty) <==> scalar_takes(
            exprs[index as int],
            types,
            index,
            ty,
        ),
{
    reveal(verdict);
    reveal_with_fuel(first_unmet, 3);
}

/// Numbers compare in any way; other values only for equality, with their own type, and texts with words.
pub proof fn comparisons_take_one_type(
    exprs: Seq<Expr>,
    controls: ControlsSchema,
    types: Seq<Option<ExprType>>,
    index: nat,
    ty: ExprType,
)
    requires
        index < exprs.len(),
        exprs[index as int] is Compare,
    ensures
        ({
            let op = exprs[index as int]->Compare_op;
            let lhs = exprs[index as int]->Compare_lhs;
            let rhs = exprs[index as int]->Compare_rhs;
            let equality = op == CompareOp::Eq || op == CompareOp::NotEq;
            sound_as(verdict(exprs, controls, types, index), ty) <==> {
                &&& ty == ExprType::Bool
                &&& lhs.0 < index && rhs.0 < index
                &&& {
                    ||| takes(types, index, lhs, ExprType::Number) && takes(
                        types,
                        index,
                        rhs,
                        ExprType::Number,
                    )
                    ||| equality && types[lhs.0 as int] is Some && types[lhs.0 as int]
                        == types[rhs.0 as int]
                    ||| equality && takes(types, index, lhs, ExprType::Text) && takes(
                        types,
                        index,
                        rhs,
                        ExprType::Enum,
                    )
                    ||| equality && takes(types, index, lhs, ExprType::Enum) && takes(
                        types,
                        index,
                        rhs,
                        ExprType::Text,
                    )
                }
            }
        }),
{
    reveal(verdict);
}

/// Whether a type is written as one token.
pub open spec fn is_written(ty: Option<ExprType>) -> bool {
    match ty {
        Some(ExprType::Number) => true,
        Some(ExprType::Bool) => true,
        Some(ExprType::Text) => true,
        Some(ExprType::Enum) => true,
        Some(ExprType::Length) => true,
        Some(ExprType::Angle) => true,
        Some(ExprType::Color) => true,
        _ => false,
    }
}

/// Whether a part of a template is text or goes back to what is written as one token.
pub open spec fn part_fits(
    parts: Seq<TemplatePart>,
    types: Seq<Option<ExprType>>,
    index: nat,
    k: int,
) -> bool {
    match parts[k] {
        TemplatePart::Text { .. } => true,
        TemplatePart::Expr { expr } => expr.0 < index && is_written(types[expr.0 as int]),
    }
}

proof fn parts_are_checked(
    parts: Seq<TemplatePart>,
    types: Seq<Option<ExprType>>,
    index: nat,
    n: nat,
)
    requires
        n <= parts.len(),
    ensures
        crate::admission::part_forwards(parts, index, n).len() == 0 && crate::admission::part_types(
            parts,
            types,
            index,
            n,
        ).len() == 0 <==> forall|k: int| 0 <= k < n ==> #[trigger] part_fits(parts, types, index, k),
    decreases n,
{
    if n > 0 {
        parts_are_checked(parts, types, index, (n - 1) as nat);
        if forall|k: int| 0 <= k < n ==> #[trigger] part_fits(parts, types, index, k) {
            assert(part_fits(parts, types, index, n - 1));
        }
    }
}

/// A template has 1 to 64 parts and at most 8192 bytes of its own, and every part fits.
pub proof fn templates_take_tokens(
    exprs: Seq<Expr>,
    controls: ControlsSchema,
    types: Seq<Option<ExprType>>,
    index: nat,
    ty: ExprType,
)
    requires
        index < exprs.len(),
        exprs[index as int] is Template,
    ensures
        ({
            let parts = exprs[index as int]->Template_parts@;
            sound_as(verdict(exprs, controls, types, index), ty) <==> {
                &&& ty == ExprType::Text
                &&& 1 <= parts.len() <= 64
                &&& static_bytes(parts, parts.len()) <= 8192
                &&& forall|k: int|
                    0 <= k < parts.len() ==> #[trigger] part_fits(parts, types, index, k)
            }
        }),
{
    reveal(verdict);
    let parts = exprs[index as int]->Template_parts@;
    parts_are_checked(parts, types, index, parts.len());
}

/// Whether a stop is finite, strictly behind the one before it, and of the type of the first.
pub open spec fn stop_fits(stops: Seq<InterpolateStop>, k: int) -> bool {
    &&& stops[k].input.finite()
    &&& k > 0 ==> stops[k - 1].input.is_nan_spec() || stops[k - 1].input.order()
        < stops[k].input.order()
    &&& stops[k].output@.finite()
    &&& type_of(stops[k].output@) == type_of(stops[0].output@)
    &&& match (stops[0].output@, stops[k].output@) {
        (Value::PathData(p), Value::PathData(q)) => q.points.len() <= 2048 && p.verbs == q.verbs
            && p.points.len() == q.points.len(),
        _ => true,
    }
}

proof fn stops_are_checked(stops: Seq<InterpolateStop>, index: nat, n: nat)
    requires
        n <= stops.len(),
    ensures
        crate::admission::stop_findings(stops, index, n).len() == 0
            && crate::admission::blend_findings(stops, index, n).len() == 0 <==> forall|k: int|
            0 <= k < n ==> #[trigger] stop_fits(stops, k),
    decreases n,
{
    if n > 0 {
        stops_are_checked(stops, index, (n - 1) as nat);
        if forall|k: int| 0 <= k < n ==> #[trigger] stop_fits(stops, k) {
            assert(stop_fits(stops, n - 1));
        }
    }
}

proof fn easings_are_checked(easings: Seq<MotionEasing>, index: nat, n: nat)
    requires
        n <= easings.len(),
    ensures
        crate::admission::easing_findings(easings, index, n).len() == 0 <==> forall|k: int|
            0 <= k < n ==> (#[trigger] easings[k]).finite(),
    decreases n,
{
    if n > 0 {
        easings_are_checked(easings, index, (n - 1) as nat);
        if forall|k: int| 0 <= k < n ==> (#[trigger] easings[k]).finite() {
            assert(easings[n - 1].finite());
        }
    }
}

/// An interpolation takes a number, and has two stops or more that fit each other, of a type that blends,
/// and no easings or one for each segment. Its type is that of its stops.
pub proof fn interpolations_blend_one_type(
    exprs: Seq<Expr>,
    controls: ControlsSchema,
    types: Seq<Option<ExprType>>,
    index: nat,
    ty: ExprType,
)
    requires
        index < exprs.len(),
        exprs[index as int] is Interpolate,
    ensures
        ({
            let input = exprs[index as int]->Interpolate_input;
            let stops = exprs[index as int]->stops@;
            let easings = exprs[index as int]->easings@;
            sound_as(verdict(exprs, controls, types, index), ty) <==> {
                &&& takes(types, index, input, ExprType::Number)
                &&& stops.len() >= 2
                &&& ty == type_of(stops[0].output@)
                &&& ty != ExprType::Bool && ty != ExprType::Text && ty != ExprType::Enum
                &&& forall|k: int| 0 <= k < stops.len() ==> #[trigger] stop_fits(stops, k)
                &&& easings.len() == 0 || easings.len() + 1 == stops.len()
                &&& forall|k: int| 0 <= k < easings.len() ==> (#[trigger] easings[k]).finite()
            }
        }),
{
    reveal(verdict);
    let stops = exprs[index as int]->stops@;
    let easings = exprs[index as int]->easings@;
    stops_are_checked(stops, index, stops.len());
    easings_are_checked(easings, index, easings.len());
}

/// What an expression reads of the frame: text units, layout, and anything that is known only then.
pub proof fn expressions_read_what_they_name(e: Expr)
    ensures
        reads_unit(e) <==> e == (Expr::Context { input: ContextInput::UnitIndex }) || e == (
        Expr::Context { input: ContextInput::UnitCount }) || e == (Expr::Context {
            input: ContextInput::UnitStart,
        }) || e == (Expr::Context { input: ContextInput::UnitEnd }),
        reads_layout(e) <==> e is NodeBounds || e is Project3D,
        reads_runtime(e) <==> e is Context || e is Prop || e is Cue || e is NodeBounds
            || e is Project3D || e is Spring,
{
}

/// Geometry that does not change between frames is prepared once; trajectories are prepared whole; other
/// geometry is evaluated in every frame.
pub proof fn geometry_is_prepared_where_it_stays(exprs: Seq<Expr>, id: ExprId)
    requires
        id.0 < exprs.len(),
    ensures
        frame_invariant_spec(exprs, id) ==> eval_policy(exprs, id) == Some(
            GeometryEvalPolicy::PrepareCached,
        ),
        !frame_invariant_spec(exprs, id) ==> match exprs[id.0 as int] {
            Expr::PathTrajectory { .. } => eval_policy(exprs, id) == Some(
                GeometryEvalPolicy::PrecomputedTrajectory,
            ),
            Expr::PathMorph { .. } | Expr::PathLine { .. } | Expr::PathTemplate { .. }
            | Expr::PathCubic { .. } | Expr::PathArc { .. } | Expr::PathArea { .. }
            | Expr::PathOffset { .. } | Expr::Interpolate { .. } | Expr::Select { .. } => eval_policy(
                exprs,
                id,
            ) == Some(GeometryEvalPolicy::FrameExpr),
            _ => eval_policy(exprs, id) is None,
        },
{
}

} // verus!
