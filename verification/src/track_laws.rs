//! What a sample of a glass surface holds, field by field.

use vstd::prelude::*;

use crate::artifact::{NodeKind, NumberValue, PointValue, SceneArtifact, StyleBinding, StyleValue};
use crate::eval::{EvalInputs, Kernel, KernelError, MotionContext};
use crate::expr::ExprId;
use crate::faults::Fault;
use crate::glass::GlassNode;
use crate::passes::{before_layout, pass_gives, slice_active};
use crate::recording::Point;
use crate::scalar::{num, Scalar, ZERO};
use crate::tracks::{
    bare, is_sample, sample_result, slice_of, sliced, style_at, GlassLocalShape,
    GlassSurfaceTrackSample, TrackFault,
};
use crate::value::{MotionValue, Value};

verus! {

/// Whether values hold a number or a length of this size.
pub open spec fn measures(v: Value, x: Scalar) -> bool {
    match v {
        Value::Number(y) => y == x,
        Value::Length(l) => l.value == x,
        _ => false,
    }
}

/// Whether the first style of a node under a property gives a number, by itself or through the values
/// of an instant.
pub open spec fn style_gives(
    styles: Seq<StyleBinding>,
    values: Seq<Value>,
    property: Seq<char>,
    x: Scalar,
) -> bool {
    exists|i: int|
        0 <= i < styles.len() && (#[trigger] styles[i]).property@ == property && (forall|j: int|
            0 <= j < i ==> (#[trigger] styles[j]).property@ != property) && match styles[i].value {
            StyleValue::Static { value } => measures(value@, x),
            StyleValue::Expr { expr } => expr.0 < values.len() && measures(
                values[expr.0 as int],
                x,
            ),
        }
}

/// Whether no style of a node has a property.
pub open spec fn unstyled(styles: Seq<StyleBinding>, property: Seq<char>) -> bool {
    forall|i: int| 0 <= i < styles.len() ==> (#[trigger] styles[i]).property@ != property
}

/// Whether a binding gives a number, by itself or through the values of an instant.
pub open spec fn binding_gives(b: NumberValue, values: Seq<Value>, x: Scalar) -> bool {
    match b {
        NumberValue::Static { value } => value == x,
        NumberValue::Expr { expr } => expr.0 < values.len() && measures(values[expr.0 as int], x),
    }
}

/// Whether a binding gives a point, by itself or through the values of an instant.
pub open spec fn point_gives(b: PointValue, values: Seq<Value>, p: Point) -> bool {
    match b {
        PointValue::Static { value } => value == p,
        PointValue::Expr { expr } => expr.0 < values.len() && (values[expr.0 as int]
            == Value::Point(p) || values[expr.0 as int] == Value::Vec2(p)),
    }
}

/// Whether a shape has what the styles and bindings of a surface give at an instant: its rectangle from
/// `left`, `top`, `width` and `height`, its presence and intensity, and what drives it.
pub open spec fn shape_told(
    styles: Seq<StyleBinding>,
    glass: GlassNode,
    values: Seq<Value>,
    s: GlassLocalShape,
) -> bool {
    &&& style_gives(styles, values, "left"@, s.rect.x) || (unstyled(styles, "left"@) && s.rect.x
        == num(ZERO))
    &&& style_gives(styles, values, "top"@, s.rect.y) || (unstyled(styles, "top"@) && s.rect.y
        == num(ZERO))
    &&& style_gives(styles, values, "width"@, s.rect.width)
    &&& style_gives(styles, values, "height"@, s.rect.height)
    &&& binding_gives(glass.presence, values, s.presence)
    &&& binding_gives(glass.motion.intensity, values, s.intensity)
    &&& match glass.motion.drive.translation {
        Some(b) => point_gives(b, values, s.drive_translation),
        None => s.drive_translation == (Point { x: num(ZERO), y: num(ZERO) }),
    }
    &&& match glass.motion.drive.pressure {
        Some(b) => binding_gives(b, values, s.drive_pressure),
        None => s.drive_pressure == num(ZERO),
    }
    &&& match glass.motion.drive.twist {
        Some(b) => binding_gives(b, values, s.drive_twist),
        None => s.drive_twist == num(ZERO),
    }
    &&& s.rect.x.finite() && s.rect.y.finite() && s.rect.width.finite() && s.rect.height.finite()
    &&& s.presence.finite() && s.intensity.finite()
}

proof fn first_styles_are_found(styles: Seq<StyleBinding>, property: Seq<char>, i: int)
    requires
        0 <= i <= styles.len(),
        forall|j: int| 0 <= j < i ==> (#[trigger] styles[j]).property@ != property,
    ensures
        i <= style_at(styles, property, i) <= styles.len(),
        style_at(styles, property, i) < styles.len() ==> styles[style_at(
            styles,
            property,
            i,
        )].property@ == property,
        forall|j: int|
            0 <= j < style_at(styles, property, i) ==> (#[trigger] styles[j]).property@ != property,
    decreases styles.len() - i,
{
    if i < styles.len() && styles[i].property@ != property {
        first_styles_are_found(styles, property, i + 1);
    }
}

/// Every sample of a surface is that of its node: it names the node, the instant and the surface, and has
/// the rectangle, the presence, the intensity and the drive that the node's styles and bindings give with
/// the values of that instant.
pub proof fn samples_hold_their_fields<
    K: Fn(&Kernel) -> Result<MotionValue, KernelError>,
    T: Fn(&MotionValue) -> String,
>(
    host: K,
    tokens: T,
    a: SceneArtifact,
    at: usize,
    time: int,
    ctx: MotionContext,
    s: GlassSurfaceTrackSample,
    glass: GlassNode,
)
    requires
        is_sample(host, tokens, a, at, time, ctx, s),
        a.nodes@[at as int].kind == NodeKind::Glass(glass),
    ensures
        s.node == at,
        s.time == time,
        s.surface_id@ == glass.surface_id@,
        exists|inputs: EvalInputs, live: Seq<ExprId>, values: Seq<Value>|
            *inputs.ctx == ctx && #[trigger] pass_gives(
                host,
                tokens,
                a.exprs@,
                slice_active(a.exprs@, false, live),
                None,
                inputs,
                before_layout(),
                Ok(values),
            ) && shape_told(a.nodes@[at as int].styles@, glass, values, s.local),
{
    let (inputs, live, out) = choose|
        inputs: EvalInputs,
        live: Seq<ExprId>,
        out: Result<Seq<Value>, Fault>,
    |
        #![trigger bare(inputs, ctx), pass_gives(host, tokens, a.exprs@, slice_active(a.exprs@, false, live), None, inputs, before_layout(), out)]
        bare(inputs, ctx) && slice_of(a, at as int, live) && pass_gives(
            host,
            tokens,
            a.exprs@,
            slice_active(a.exprs@, false, live),
            None,
            inputs,
            before_layout(),
            out,
        ) && Ok::<GlassLocalShape, TrackFault>(s.local) == sample_result(a, at as int, live, out);
    let values = out->Ok_0;
    let styles = a.nodes@[at as int].styles@;
    let seen = sliced(live, values);
    first_styles_are_found(styles, "left"@, 0);
    first_styles_are_found(styles, "top"@, 0);
    first_styles_are_found(styles, "width"@, 0);
    first_styles_are_found(styles, "height"@, 0);
    assert(styles[style_at(styles, "width"@, 0)].property@ == "width"@);
    assert(styles[style_at(styles, "height"@, 0)].property@ == "height"@);
    assert(style_gives(styles, values, "width"@, s.local.rect.width));
    assert(style_gives(styles, values, "height"@, s.local.rect.height));
    if style_at(styles, "left"@, 0) < styles.len() {
        assert(styles[style_at(styles, "left"@, 0)].property@ == "left"@);
        assert(style_gives(styles, values, "left"@, s.local.rect.x));
    }
    if style_at(styles, "top"@, 0) < styles.len() {
        assert(styles[style_at(styles, "top"@, 0)].property@ == "top"@);
        assert(style_gives(styles, values, "top"@, s.local.rect.y));
    }
    assert(shape_told(styles, glass, values, s.local));
    let r: Result<Seq<Value>, Fault> = Ok(values);
    assert(pass_gives(
        host,
        tokens,
        a.exprs@,
        slice_active(a.exprs@, false, live),
        None,
        inputs,
        before_layout(),
        r,
    ));
}

} // verus!
