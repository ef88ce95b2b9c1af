//! What a binding stands for: itself where it is static, the value of its expression where it is not,
//! and what paints, styles and text units make of their bindings.

use vstd::prelude::*;

use crate::artifact::{
    BoolValue, ColorValue, GradientStopValue, NumberValue, PaintValue, PathValue, PointValue, RectValue,
    SceneArtifact, StyleBinding, StyleValue, TextValue, UnitStyle,
};
use crate::bindings::{
    bool_bound, color_bound, number_bound, paint_bound, path_bound, point_bound, rect_bound, stops_bound,
    style_from, style_valued, styled, text_bound, Painted, Stop,
};
use crate::expr::ExprId;
use crate::layout_error::LayoutFault;
use crate::path::Path;
use crate::recording::{Point, Rect, Rgba};
use crate::runs::ResolvedUnit;
use crate::scalar::Scalar;
use crate::text_units::{unit_at, unit_styled, unit_table};
use crate::value::Value;

verus! {

/// Whether an expression has a value this frame.
pub open spec fn is_value(values: Seq<Value>, id: ExprId, v: Value) -> bool {
    id.0 < values.len() && values[id.0 as int] == v
}

pub open spec fn gives_number(b: NumberValue, values: Seq<Value>, x: Scalar) -> bool {
    match b {
        NumberValue::Static { value } => value == x,
        NumberValue::Expr { expr } => is_value(values, expr, Value::Number(x)),
    }
}

pub open spec fn gives_point(b: PointValue, values: Seq<Value>, p: Point) -> bool {
    match b {
        PointValue::Static { value } => value == p,
        PointValue::Expr { expr } => is_value(values, expr, Value::Point(p)),
    }
}

pub open spec fn gives_color(b: ColorValue, values: Seq<Value>, c: Rgba) -> bool {
    match b {
        ColorValue::Static { value } => value == c,
        ColorValue::Expr { expr } => is_value(values, expr, Value::Color(c)),
    }
}

/// A number, a point or a color is bound to what its binding gives, and to nothing else.
pub proof fn bindings_give_their_value(
    number: NumberValue,
    point: PointValue,
    color: ColorValue,
    values: Seq<Value>,
    at: int,
    op: Seq<char>,
    x: Scalar,
    p: Point,
    c: Rgba,
)
    ensures
        number_bound(number, values, at, op) == Ok::<Scalar, LayoutFault>(x) <==> gives_number(
            number,
            values,
            x,
        ),
        point_bound(point, values, at, op) == Ok::<Point, LayoutFault>(p) <==> gives_point(
            point,
            values,
            p,
        ),
        color_bound(color, values, at) == Ok::<Rgba, LayoutFault>(c) <==> gives_color(
            color,
            values,
            c,
        ),
{
}

/// A condition, a path and a text are bound to what their bindings give; a text may also be a word.
pub proof fn other_bindings_give_their_value(
    condition: BoolValue,
    path: PathValue,
    text: TextValue,
    style: StyleValue,
    values: Seq<Value>,
    at: int,
    op: Seq<char>,
    b: bool,
    p: Path,
    s: Seq<char>,
    v: Value,
)
    ensures
        bool_bound(condition, values, at, op) == Ok::<bool, LayoutFault>(b) <==> match condition {
            BoolValue::Static { value } => value == b,
            BoolValue::Expr { expr } => is_value(values, expr, Value::Bool(b)),
        },
        path_bound(path, values, at) == Ok::<Path, LayoutFault>(p) <==> match path {
            PathValue::Static { value } => value@ == p,
            PathValue::Expr { expr } => is_value(values, expr, Value::PathData(p)),
        },
        text_bound(text, values, at) == Ok::<Seq<char>, LayoutFault>(s) <==> match text {
            TextValue::Static { value } => value@ == s,
            TextValue::Expr { expr } => is_value(values, expr, Value::Str(s)) || is_value(
                values,
                expr,
                Value::Enum(s),
            ),
        },
        style_valued(style, values, at) == Ok::<Value, LayoutFault>(v) <==> match style {
            StyleValue::Static { value } => value@ == v,
            StyleValue::Expr { expr } => is_value(values, expr, v),
        },
{
}

/// A rectangle is bound to what its binding gives, where that is finite and has an area.
pub proof fn rectangles_have_an_area(
    b: RectValue,
    values: Seq<Value>,
    at: int,
    node: Seq<char>,
    r: Rect,
)
    ensures
        rect_bound(b, values, at, node) == Ok::<Rect, LayoutFault>(r) <==> {
            &&& match b {
                RectValue::Static { value } => value == r,
                RectValue::Expr { expr } => is_value(values, expr, Value::Rect(r)),
            }
            &&& r.x.finite() && r.y.finite() && r.width.finite() && r.height.finite()
            &&& r.width.order() > 0
            &&& r.height.order() > 0
        },
{
}

proof fn first_style(styles: Seq<StyleBinding>, property: Seq<char>, k: int, i: int)
    requires
        0 <= i <= k < styles.len(),
        styles[k].property@ == property,
        forall|j: int| i <= j < k ==> (#[trigger] styles[j]).property@ != property,
    ensures
        style_from(styles, property, i) == k,
    decreases k - i,
{
    if i < k {
        first_style(styles, property, k, i + 1);
    }
}

proof fn no_style(styles: Seq<StyleBinding>, property: Seq<char>, i: int)
    requires
        0 <= i <= styles.len(),
        forall|j: int| i <= j < styles.len() ==> (#[trigger] styles[j]).property@ != property,
    ensures
        style_from(styles, property, i) == styles.len(),
    decreases styles.len() - i,
{
    if i < styles.len() {
        no_style(styles, property, i + 1);
    }
}

/// The first style of a property decides.
pub proof fn first_styles_decide(
    styles: Seq<StyleBinding>,
    values: Seq<Value>,
    at: int,
    property: Seq<char>,
    k: int,
    v: Value,
)
    requires
        0 <= k < styles.len(),
        styles[k].property@ == property,
        forall|j: int| 0 <= j < k ==> (#[trigger] styles[j]).property@ != property,
        match styles[k].value {
            StyleValue::Static { value } => value@ == v,
            StyleValue::Expr { expr } => is_value(values, expr, v),
        },
    ensures
        styled(styles, values, at, property) == Ok::<Option<Value>, LayoutFault>(Some(v)),
{
    first_style(styles, property, k, 0);
}

/// A property that no style has has no value.
pub proof fn missing_styles_have_no_value(
    styles: Seq<StyleBinding>,
    values: Seq<Value>,
    at: int,
    property: Seq<char>,
)
    requires
        forall|j: int| 0 <= j < styles.len() ==> (#[trigger] styles[j]).property@ != property,
    ensures
        styled(styles, values, at, property) == Ok::<Option<Value>, LayoutFault>(None),
{
    no_style(styles, property, 0);
}

proof fn stops_read_prefixes(
    bindings: Seq<GradientStopValue>,
    more: GradientStopValue,
    values: Seq<Value>,
    at: int,
    node: Seq<char>,
    n: nat,
)
    requires
        n <= bindings.len(),
    ensures
        stops_bound(bindings.push(more), values, at, node, n) == stops_bound(
            bindings,
            values,
            at,
            node,
            n,
        ),
        stops_bound(bindings, values, at, node, n) is Ok ==> stops_bound(
            bindings,
            values,
            at,
            node,
            n,
        )->Ok_0.len() == n,
    decreases n,
{
    if n > 0 {
        stops_read_prefixes(bindings, more, values, at, node, (n - 1) as nat);
    }
}

/// A stop is added to a gradient with its offset and its color, where the offset lies between 0 and 1 and
/// not before the last one.
pub proof fn stops_keep_their_order(
    bindings: Seq<GradientStopValue>,
    more: GradientStopValue,
    values: Seq<Value>,
    at: int,
    node: Seq<char>,
    before: Seq<Stop>,
    offset: Scalar,
    color: Rgba,
)
    requires
        stops_bound(bindings, values, at, node, bindings.len()) == Ok::<Seq<Stop>, LayoutFault>(
            before,
        ),
        gives_number(more.offset, values, offset),
        gives_color(more.color, values, color),
    ensures
        before.len() == bindings.len(),
        ({
            let after = stops_bound(bindings.push(more), values, at, node, bindings.len() + 1);
            let sorted = before.len() == 0 || before.last().0.order() <= offset.order()
                || before.last().0.is_nan_spec();
            if offset.finite() && 0 <= offset.order() <= 0x3ff0_0000_0000_0000 && sorted {
                after == Ok::<Seq<Stop>, LayoutFault>(before.push((offset, color)))
            } else {
                after is Err
            }
        }),
{
    stops_read_prefixes(bindings, more, values, at, node, bindings.len());
}

/// A gradient of no stops has none.
pub proof fn no_stops_are_none(
    bindings: Seq<GradientStopValue>,
    values: Seq<Value>,
    at: int,
    node: Seq<char>,
)
    ensures
        stops_bound(bindings, values, at, node, 0) == Ok::<Seq<Stop>, LayoutFault>(seq![]),
{
}

/// A solid paint has its color; a linear gradient runs from its start to its end.
pub proof fn flat_and_linear_paints_hold_their_parts(
    binding: PaintValue,
    values: Seq<Value>,
    at: int,
    node: Seq<char>,
    p: Point,
    q: Point,
    c: Rgba,
    stops: Seq<Stop>,
)
    ensures
        match binding {
            PaintValue::Solid { color } => gives_color(color, values, c) ==> paint_bound(
                binding,
                values,
                at,
                node,
            ) == Ok::<Painted, LayoutFault>(Painted::Solid(c)),
            PaintValue::Linear { start, end, stops: bindings, spread } => gives_point(
                start,
                values,
                p,
            ) && gives_point(end, values, q) && stops_bound(
                bindings@,
                values,
                at,
                node,
                bindings@.len(),
            ) == Ok::<Seq<Stop>, LayoutFault>(stops) ==> paint_bound(binding, values, at, node)
                == Ok::<Painted, LayoutFault>(Painted::Linear(p, q, stops, spread)),
            _ => true,
        },
{
}

/// A radial gradient lies about its center with a positive radius; a conic one turns about its center
/// from its angle.
pub proof fn round_paints_hold_their_parts(
    binding: PaintValue,
    values: Seq<Value>,
    at: int,
    node: Seq<char>,
    p: Point,
    x: Scalar,
    stops: Seq<Stop>,
)
    ensures
        match binding {
            PaintValue::Radial { center, radius, stops: bindings, spread } => gives_point(
                center,
                values,
                p,
            ) && gives_number(radius, values, x) && stops_bound(
                bindings@,
                values,
                at,
                node,
                bindings@.len(),
            ) == Ok::<Seq<Stop>, LayoutFault>(stops) ==> if x.finite() && x.order() > 0 {
                paint_bound(binding, values, at, node) == Ok::<Painted, LayoutFault>(
                    Painted::Radial(p, x, stops, spread),
                )
            } else {
                paint_bound(binding, values, at, node) is Err
            },
            PaintValue::Conic { center, start_angle, stops: bindings, spread } => gives_point(
                center,
                values,
                p,
            ) && gives_number(start_angle, values, x) && stops_bound(
                bindings@,
                values,
                at,
                node,
                bindings@.len(),
            ) == Ok::<Seq<Stop>, LayoutFault>(stops) ==> paint_bound(binding, values, at, node)
                == Ok::<Painted, LayoutFault>(Painted::Conic(p, x, stops, spread)),
            _ => true,
        },
{
}

/// A unit stands for its byte range, and each of its properties is what the binding of that property
/// gives, or absent without one.
pub proof fn units_hold_their_properties(
    style: UnitStyle,
    values: Seq<Value>,
    at: int,
    start: u32,
    end: u32,
    u: ResolvedUnit,
)
    ensures
        unit_styled(style, values, at, (start, end)) == Ok::<ResolvedUnit, LayoutFault>(u) <==> {
            &&& u.start == start
            &&& u.end == end
            &&& match style.opacity {
                Some(b) => u.opacity is Some && gives_number(b, values, u.opacity->0),
                None => u.opacity is None,
            }
            &&& match style.translate {
                Some(b) => u.translate is Some && gives_point(b, values, u.translate->0),
                None => u.translate is None,
            }
            &&& match style.scale {
                Some(b) => u.scale is Some && gives_point(b, values, u.scale->0),
                None => u.scale is None,
            }
            &&& match style.rotate {
                Some(b) => u.rotate is Some && gives_number(b, values, u.rotate->0),
                None => u.rotate is None,
            }
            &&& match style.color {
                Some(b) => u.color is Some && gives_color(b, values, u.color->0),
                None => u.color is None,
            }
        },
{
}

/// A unit knows its place among the units of its text, how many there are, and its own range.
pub proof fn units_know_their_place(ranges: Seq<(u32, u32)>, i: int, start: u32, end: u32)
    requires
        0 <= i < ranges.len() <= u32::MAX,
        ranges[i] == (start, end),
    ensures
        unit_at(ranges, i).index == i,
        unit_at(ranges, i).count == ranges.len(),
        unit_at(ranges, i).start == start,
        unit_at(ranges, i).end == end,
{
}

/// The unit styles of a frame stand under the keys of their nodes, in the order of the nodes.
pub proof fn unit_tables_are_keyed_by_node(
    a: SceneArtifact,
    lists: Seq<Option<Seq<ResolvedUnit>>>,
    n: nat,
)
    requires
        n < lists.len(),
    ensures
        unit_table(a, lists, 0) == Seq::<(Seq<char>, Seq<ResolvedUnit>)>::empty(),
        lists[n as int] is None ==> unit_table(a, lists, n + 1) == unit_table(a, lists, n),
        lists[n as int] is Some ==> unit_table(a, lists, n + 1) == unit_table(a, lists, n).push(
            (a.nodes@[n as int].key@, lists[n as int]->0),
        ),
{
}

} // verus!
