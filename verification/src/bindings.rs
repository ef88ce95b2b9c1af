//! Reading bindings from the values of a frame.

use vstd::prelude::*;

use crate::artifact::{
    BoolValue, ColorValue, GradientStopValue, NumberValue, PaintValue, PathValue, PointValue,
    RectValue, SceneNode, SpreadMode, StyleBinding, StyleValue, TextValue,
};
use crate::eval::values_of;
use crate::expr::ExprId;
use crate::faults::{EvalError, Fault};
use crate::layout_error::{laid, plain, LayoutError, LayoutFault};
use crate::path::{Path, PathData};
use crate::recording::{Point, Rect, Rgba};
use crate::scalar::{num, Scalar, ONE, ZERO};
use crate::table::same_text;
use crate::value::{finite_rect, MotionValue, Value};

verus! {

/// The value of an expression.
pub open spec fn valued(values: Seq<Value>, id: ExprId, at: int) -> Result<Value, LayoutFault> {
    if id.0 < values.len() {
        Ok(values[id.0 as int])
    } else {
        Err(LayoutFault::Eval(Fault::BadExpr(at, id.0 as int)))
    }
}

pub open spec fn wrong_type<T>(at: int, op: Seq<char>) -> Result<T, LayoutFault> {
    Err(LayoutFault::Eval(Fault::TypeMismatch(at, op)))
}

/// The value of an expression.
pub fn value<'a>(values: &'a Vec<MotionValue>, expr: ExprId, at: usize) -> (r: Result<
    &'a MotionValue,
    LayoutError,
>)
    ensures
        match r {
            Ok(v) => valued(values_of(values@), expr, at as int) == Ok::<Value, LayoutFault>(v@),
            Err(e) => valued(values_of(values@), expr, at as int) == Err::<Value, LayoutFault>(e@),
        },
{
    if (expr.0 as usize) < values.len() {
        Ok(&values[expr.0 as usize])
    } else {
        Err(LayoutError::Eval(EvalError::BadExpr { at, referenced: expr.0 as usize }))
    }
}

pub open spec fn number_bound(binding: NumberValue, values: Seq<Value>, at: int, op: Seq<char>) -> Result<
    Scalar,
    LayoutFault,
> {
    match binding {
        NumberValue::Static { value } => Ok(value),
        NumberValue::Expr { expr } => match valued(values, expr, at) {
            Ok(Value::Number(x)) => Ok(x),
            Ok(_) => wrong_type(at, op),
            Err(f) => Err(f),
        },
    }
}

pub fn number_value(
    binding: NumberValue,
    values: &Vec<MotionValue>,
    at: usize,
    op: &'static str,
) -> (r: Result<Scalar, LayoutError>)
    ensures
        plain(r) == number_bound(binding, values_of(values@), at as int, op@),
{
    match binding {
        NumberValue::Static { value } => Ok(value),
        NumberValue::Expr { expr } => match value(values, expr, at) {
            Ok(MotionValue::Number(x)) => Ok(*x),
            Ok(_) => Err(LayoutError::Eval(EvalError::TypeMismatch { at, op })),
            Err(e) => Err(e),
        },
    }
}

pub open spec fn point_bound(binding: PointValue, values: Seq<Value>, at: int, op: Seq<char>) -> Result<
    Point,
    LayoutFault,
> {
    match binding {
        PointValue::Static { value } => Ok(value),
        PointValue::Expr { expr } => match valued(values, expr, at) {
            Ok(Value::Point(p)) => Ok(p),
            Ok(_) => wrong_type(at, op),
            Err(f) => Err(f),
        },
    }
}

pub fn point_value(
    binding: PointValue,
    values: &Vec<MotionValue>,
    at: usize,
    op: &'static str,
) -> (r: Result<Point, LayoutError>)
    ensures
        plain(r) == point_bound(binding, values_of(values@), at as int, op@),
{
    match binding {
        PointValue::Static { value } => Ok(value),
        PointValue::Expr { expr } => match value(values, expr, at) {
            Ok(MotionValue::Point(p)) => Ok(*p),
            Ok(_) => Err(LayoutError::Eval(EvalError::TypeMismatch { at, op })),
            Err(e) => Err(e),
        },
    }
}

pub open spec fn color_bound(binding: ColorValue, values: Seq<Value>, at: int) -> Result<
    Rgba,
    LayoutFault,
> {
    match binding {
        ColorValue::Static { value } => Ok(value),
        ColorValue::Expr { expr } => match valued(values, expr, at) {
            Ok(Value::Color(c)) => Ok(c),
            Ok(_) => wrong_type(at, "gradient color"@),
            Err(f) => Err(f),
        },
    }
}

pub fn color_value(binding: ColorValue, values: &Vec<MotionValue>, at: usize) -> (r: Result<
    Rgba,
    LayoutError,
>)
    ensures
        plain(r) == color_bound(binding, values_of(values@), at as int),
{
    match binding {
        ColorValue::Static { value } => Ok(value),
        ColorValue::Expr { expr } => match value(values, expr, at) {
            Ok(MotionValue::Color(c)) => Ok(*c),
            Ok(_) => Err(LayoutError::Eval(EvalError::TypeMismatch { at, op: "gradient color" })),
            Err(e) => Err(e),
        },
    }
}

pub open spec fn bool_bound(binding: BoolValue, values: Seq<Value>, at: int, op: Seq<char>) -> Result<
    bool,
    LayoutFault,
> {
    match binding {
        BoolValue::Static { value } => Ok(value),
        BoolValue::Expr { expr } => if expr.0 < values.len() {
            match values[expr.0 as int] {
                Value::Bool(b) => Ok(b),
                _ => wrong_type(at, op),
            }
        } else {
            wrong_type(at, op)
        },
    }
}

pub fn bool_value(
    binding: BoolValue,
    values: &Vec<MotionValue>,
    at: usize,
    op: &'static str,
) -> (r: Result<bool, LayoutError>)
    ensures
        plain(r) == bool_bound(binding, values_of(values@), at as int, op@),
{
    match binding {
        BoolValue::Static { value } => Ok(value),
        BoolValue::Expr { expr } => {
            if (expr.0 as usize) < values.len() {
                match &values[expr.0 as usize] {
                    MotionValue::Bool(b) => {
                        return Ok(*b);
                    },
                    _ => {},
                }
            }
            Err(LayoutError::Eval(EvalError::TypeMismatch { at, op }))
        },
    }
}

pub open spec fn path_bound(binding: PathValue, values: Seq<Value>, at: int) -> Result<
    Path,
    LayoutFault,
> {
    match binding {
        PathValue::Static { value } => Ok(value@),
        PathValue::Expr { expr } => match valued(values, expr, at) {
            Ok(Value::PathData(p)) => Ok(p),
            Ok(_) => wrong_type(at, "path d"@),
            Err(f) => Err(f),
        },
    }
}

pub fn path_value<'a>(binding: &'a PathValue, values: &'a Vec<MotionValue>, at: usize) -> (r: Result<
    &'a PathData,
    LayoutError,
>)
    ensures
        match r {
            Ok(p) => path_bound(*binding, values_of(values@), at as int) == Ok::<
                Path,
                LayoutFault,
            >(p@),
            Err(e) => path_bound(*binding, values_of(values@), at as int) == Err::<
                Path,
                LayoutFault,
            >(e@),
        },
{
    match binding {
        PathValue::Static { value } => Ok(value),
        PathValue::Expr { expr } => match value(values, *expr, at) {
            Ok(MotionValue::PathData(p)) => Ok(p),
            Ok(_) => Err(LayoutError::Eval(EvalError::TypeMismatch { at, op: "path d" })),
            Err(e) => Err(e),
        },
    }
}

/// Whether a rectangle is finite with a positive size.
pub open spec fn is_positive(r: Rect) -> bool {
    finite_rect(r) && num(ZERO).lt_spec(r.width) && num(ZERO).lt_spec(r.height)
}

pub open spec fn rect_bound(binding: RectValue, values: Seq<Value>, at: int, node: Seq<char>) -> Result<
    Rect,
    LayoutFault,
> {
    match (match binding {
        RectValue::Static { value } => Ok(value),
        RectValue::Expr { expr } => match valued(values, expr, at) {
            Ok(Value::Rect(r)) => Ok(r),
            Ok(_) => wrong_type(at, "mask rect"@),
            Err(f) => Err(f),
        },
    }) {
        Err(f) => Err(f),
        Ok(r) => if is_positive(r) {
            Ok(r)
        } else {
            Err(
                LayoutFault::BadMask(
                    node,
                    "rect must have finite coordinates and positive size"@,
                ),
            )
        },
    }
}

pub fn rect_value(binding: RectValue, values: &Vec<MotionValue>, at: usize, node: &str) -> (r: Result<
    Rect,
    LayoutError,
>)
    ensures
        plain(r) == rect_bound(binding, values_of(values@), at as int, node@),
{
    let rect = match binding {
        RectValue::Static { value } => value,
        RectValue::Expr { expr } => match value(values, expr, at) {
            Ok(MotionValue::Rect(r)) => *r,
            Ok(_) => {
                return Err(LayoutError::Eval(EvalError::TypeMismatch { at, op: "mask rect" }));
            },
            Err(e) => {
                return Err(e);
            },
        },
    };
    let zero = Scalar::from_bits(ZERO);
    if !rect.x.is_finite() || !rect.y.is_finite() || !rect.width.is_finite()
        || !rect.height.is_finite() || rect.width.le(zero) || rect.height.le(zero) {
        return Err(
            LayoutError::BadMask {
                node: node.to_owned(),
                reason: "rect must have finite coordinates and positive size".to_owned(),
            },
        );
    }
    Ok(rect)
}

pub open spec fn text_bound(text: TextValue, values: Seq<Value>, at: int) -> Result<
    Seq<char>,
    LayoutFault,
> {
    match text {
        TextValue::Static { value } => Ok(value@),
        TextValue::Expr { expr } => match valued(values, expr, at) {
            Ok(Value::Str(s)) => Ok(s),
            Ok(Value::Enum(s)) => Ok(s),
            Ok(_) => wrong_type(at, "text"@),
            Err(f) => Err(f),
        },
    }
}

pub fn text_value(text: &TextValue, values: &Vec<MotionValue>, at: usize) -> (r: Result<
    String,
    LayoutError,
>)
    ensures
        laid(r) == text_bound(*text, values_of(values@), at as int),
{
    match text {
        TextValue::Static { value } => Ok(value.clone()),
        TextValue::Expr { expr } => match value(values, *expr, at) {
            Ok(MotionValue::Str(s)) => Ok(s.clone()),
            Ok(MotionValue::Enum(s)) => Ok(s.clone()),
            Ok(_) => Err(LayoutError::Eval(EvalError::TypeMismatch { at, op: "text" })),
            Err(e) => Err(e),
        },
    }
}

/// The value of a style.
pub open spec fn style_valued(style: StyleValue, values: Seq<Value>, at: int) -> Result<
    Value,
    LayoutFault,
> {
    match style {
        StyleValue::Static { value } => Ok(value@),
        StyleValue::Expr { expr } => valued(values, expr, at),
    }
}

pub fn style_value<'a>(style: &'a StyleValue, values: &'a Vec<MotionValue>, at: usize) -> (r: Result<
    &'a MotionValue,
    LayoutError,
>)
    ensures
        match r {
            Ok(v) => style_valued(*style, values_of(values@), at as int) == Ok::<
                Value,
                LayoutFault,
            >(v@),
            Err(e) => style_valued(*style, values_of(values@), at as int) == Err::<
                Value,
                LayoutFault,
            >(e@),
        },
{
    match style {
        StyleValue::Static { value } => Ok(value),
        StyleValue::Expr { expr } => value(values, *expr, at),
    }
}

/// Position of the first style from `i` on with a property; the number of styles without one.
pub open spec fn style_from(styles: Seq<StyleBinding>, property: Seq<char>, i: int) -> int
    decreases styles.len() - i,
{
    if i < 0 || i >= styles.len() {
        styles.len() as int
    } else if styles[i].property@ == property {
        i
    } else {
        style_from(styles, property, i + 1)
    }
}

/// The value of the first style with a property.
pub open spec fn styled(
    styles: Seq<StyleBinding>,
    values: Seq<Value>,
    at: int,
    property: Seq<char>,
) -> Result<Option<Value>, LayoutFault> {
    let i = style_from(styles, property, 0);
    if i < styles.len() {
        match style_valued(styles[i].value, values, at) {
            Ok(v) => Ok(Some(v)),
            Err(f) => Err(f),
        }
    } else {
        Ok(None)
    }
}

pub fn resolved_style<'a>(
    node: &'a SceneNode,
    values: &'a Vec<MotionValue>,
    at: usize,
    property: &str,
) -> (r: Result<Option<&'a MotionValue>, LayoutError>)
    ensures
        match r {
            Ok(Some(v)) => styled(node.styles@, values_of(values@), at as int, property@) == Ok::<
                Option<Value>,
                LayoutFault,
            >(Some(v@)),
            Ok(None) => styled(node.styles@, values_of(values@), at as int, property@) == Ok::<
                Option<Value>,
                LayoutFault,
            >(None),
            Err(e) => styled(node.styles@, values_of(values@), at as int, property@) == Err::<
                Option<Value>,
                LayoutFault,
            >(e@),
        },
{
    let mut i: usize = 0;
    while i < node.styles.len()
        invariant
            i <= node.styles@.len(),
            style_from(node.styles@, property@, 0) == style_from(
                node.styles@,
                property@,
                i as int,
            ),
        decreases node.styles@.len() - i,
    {
        if same_text(node.styles[i].property.as_str(), property) {
            return match style_value(&node.styles[i].value, values, at) {
                Ok(v) => Ok(Some(v)),
                Err(e) => Err(e),
            };
        }
        i = i + 1;
    }
    Ok(None)
}

/// A gradient stop of this frame.
pub type Stop = (Scalar, Rgba);

/// The first `n` stops of a gradient: offsets between 0 and 1 that do not decrease.
pub open spec fn stops_bound(
    bindings: Seq<GradientStopValue>,
    values: Seq<Value>,
    at: int,
    node: Seq<char>,
    n: nat,
) -> Result<Seq<Stop>, LayoutFault>
    decreases n,
{
    if n == 0 {
        Ok(Seq::empty())
    } else {
        match stops_bound(bindings, values, at, node, (n - 1) as nat) {
            Err(f) => Err(f),
            Ok(before) => match number_bound(
                bindings[n - 1].offset,
                values,
                at,
                "gradient stop offset"@,
            ) {
                Err(f) => Err(f),
                Ok(offset) => if !offset.finite() || !offset.within(num(ZERO), num(ONE)) || (n > 1
                    && offset.lt_spec(before[n - 2].0)) {
                    Err(
                        LayoutFault::BadPaint(
                            node,
                            "gradient stops must be finite, sorted, and inside 0..=1"@,
                        ),
                    )
                } else {
                    match color_bound(bindings[n - 1].color, values, at) {
                        Err(f) => Err(f),
                        Ok(color) => Ok(before.push((offset, color))),
                    }
                },
            },
        }
    }
}

proof fn stops_stuck(
    bindings: Seq<GradientStopValue>,
    values: Seq<Value>,
    at: int,
    node: Seq<char>,
    m: nat,
    n: nat,
)
    requires
        m <= n,
        stops_bound(bindings, values, at, node, m) is Err,
    ensures
        stops_bound(bindings, values, at, node, n) == stops_bound(bindings, values, at, node, m),
    decreases n - m,
{
    if m < n {
        stops_stuck(bindings, values, at, node, m, (n - 1) as nat);
    }
}

pub fn gradient_stops(
    bindings: &Vec<GradientStopValue>,
    values: &Vec<MotionValue>,
    at: usize,
    node: &str,
) -> (r: Result<Vec<Stop>, LayoutError>)
    ensures
        laid(r) == stops_bound(bindings@, values_of(values@), at as int, node@, bindings@.len()),
{
    let mut stops: Vec<Stop> = Vec::new();
    let mut previous = Scalar::from_bits(ZERO);
    let mut i: usize = 0;
    while i < bindings.len()
        invariant
            i <= bindings@.len(),
            stops@.len() == i,
            i > 0 ==> previous == stops@[i - 1].0,
            stops_bound(bindings@, values_of(values@), at as int, node@, i as nat) == Ok::<
                Seq<Stop>,
                LayoutFault,
            >(stops@),
        decreases bindings@.len() - i,
    {
        proof {
            if stops_bound(
                bindings@,
                values_of(values@),
                at as int,
                node@,
                (i + 1) as nat,
            ) is Err {
                stops_stuck(
                    bindings@,
                    values_of(values@),
                    at as int,
                    node@,
                    (i + 1) as nat,
                    bindings@.len(),
                );
            }
        }
        let offset = match number_value(bindings[i].offset, values, at, "gradient stop offset") {
            Ok(x) => x,
            Err(e) => {
                return Err(e);
            },
        };
        if !offset.is_finite() || !offset.in_range(Scalar::from_bits(ZERO), Scalar::from_bits(ONE))
            || (i > 0 && offset.lt(previous)) {
            return Err(
                LayoutError::BadPaint {
                    node: node.to_owned(),
                    reason: "gradient stops must be finite, sorted, and inside 0..=1".to_owned(),
                },
            );
        }
        previous = offset;
        match color_value(bindings[i].color, values, at) {
            Ok(color) => {
                stops.push((offset, color));
            },
            Err(e) => {
                return Err(e);
            },
        }
        i = i + 1;
    }
    Ok(stops)
}

/// A paint of this frame.
#[derive(Debug)]
pub enum ResolvedPaint {
    Solid(Rgba),
    Linear { start: Point, end: Point, stops: Vec<Stop>, spread: SpreadMode },
    Radial { center: Point, radius: Scalar, stops: Vec<Stop>, spread: SpreadMode },
    Conic { center: Point, start_angle: Scalar, stops: Vec<Stop>, spread: SpreadMode },
}

/// A paint by its contents.
pub enum Painted {
    Solid(Rgba),
    Linear(Point, Point, Seq<Stop>, SpreadMode),
    Radial(Point, Scalar, Seq<Stop>, SpreadMode),
    Conic(Point, Scalar, Seq<Stop>, SpreadMode),
}

impl View for ResolvedPaint {
    type V = Painted;

    open spec fn view(&self) -> Painted {
        match *self {
            ResolvedPaint::Solid(c) => Painted::Solid(c),
            ResolvedPaint::Linear { start, end, stops, spread } => Painted::Linear(
                start,
                end,
                stops@,
                spread,
            ),
            ResolvedPaint::Radial { center, radius, stops, spread } => Painted::Radial(
                center,
                radius,
                stops@,
                spread,
            ),
            ResolvedPaint::Conic { center, start_angle, stops, spread } => Painted::Conic(
                center,
                start_angle,
                stops@,
                spread,
            ),
        }
    }
}

/// The paint that a binding gives this frame.
pub open spec fn paint_bound(binding: PaintValue, values: Seq<Value>, at: int, node: Seq<char>) -> Result<
    Painted,
    LayoutFault,
> {
    match binding {
        PaintValue::Solid { color } => match color_bound(color, values, at) {
            Ok(c) => Ok(Painted::Solid(c)),
            Err(f) => Err(f),
        },
        PaintValue::Linear { start, end, stops, spread } => match point_bound(
            start,
            values,
            at,
            "linear gradient start"@,
        ) {
            Err(f) => Err(f),
            Ok(a) => match point_bound(end, values, at, "linear gradient end"@) {
                Err(f) => Err(f),
                Ok(b) => match stops_bound(stops@, values, at, node, stops@.len()) {
                    Err(f) => Err(f),
                    Ok(s) => Ok(Painted::Linear(a, b, s, spread)),
                },
            },
        },
        PaintValue::Radial { center, radius, stops, spread } => match number_bound(
            radius,
            values,
            at,
            "radial gradient radius"@,
        ) {
            Err(f) => Err(f),
            Ok(r) => if !r.finite() || r.le_spec(num(ZERO)) {
                Err(
                    LayoutFault::BadPaint(
                        node,
                        "radial gradient radius must be finite and positive"@,
                    ),
                )
            } else {
                match point_bound(center, values, at, "radial gradient center"@) {
                    Err(f) => Err(f),
                    Ok(c) => match stops_bound(stops@, values, at, node, stops@.len()) {
                        Err(f) => Err(f),
                        Ok(s) => Ok(Painted::Radial(c, r, s, spread)),
                    },
                }
            },
        },
        PaintValue::Conic { center, start_angle, stops, spread } => match point_bound(
            center,
            values,
            at,
            "conic gradient center"@,
        ) {
            Err(f) => Err(f),
            Ok(c) => match number_bound(start_angle, values, at, "conic gradient start angle"@) {
                Err(f) => Err(f),
                Ok(angle) => match stops_bound(stops@, values, at, node, stops@.len()) {
                    Err(f) => Err(f),
                    Ok(s) => Ok(Painted::Conic(c, angle, s, spread)),
                },
            },
        },
    }
}

pub fn paint_value(binding: &PaintValue, values: &Vec<MotionValue>, at: usize, node: &str) -> (r: Result<
    ResolvedPaint,
    LayoutError,
>)
    ensures
        laid(r) == paint_bound(*binding, values_of(values@), at as int, node@),
{
    match binding {
        PaintValue::Solid { color } => match color_value(*color, values, at) {
            Ok(c) => Ok(ResolvedPaint::Solid(c)),
            Err(e) => Err(e),
        },
        PaintValue::Linear { start, end, stops, spread } => match point_value(
            *start,
            values,
            at,
            "linear gradient start",
        ) {
            Err(e) => Err(e),
            Ok(start) => match point_value(*end, values, at, "linear gradient end") {
                Err(e) => Err(e),
                Ok(end) => match gradient_stops(stops, values, at, node) {
                    Err(e) => Err(e),
                    Ok(stops) => Ok(ResolvedPaint::Linear { start, end, stops, spread: *spread }),
                },
            },
        },
        PaintValue::Radial { center, radius, stops, spread } => {
            let radius = match number_value(*radius, values, at, "radial gradient radius") {
                Ok(x) => x,
                Err(e) => {
                    return Err(e);
                },
            };
            if !radius.is_finite() || radius.le(Scalar::from_bits(ZERO)) {
                return Err(
                    LayoutError::BadPaint {
                        node: node.to_owned(),
                        reason: "radial gradient radius must be finite and positive".to_owned(),
                    },
                );
            }
            match point_value(*center, values, at, "radial gradient center") {
                Err(e) => Err(e),
                Ok(center) => match gradient_stops(stops, values, at, node) {
                    Err(e) => Err(e),
                    Ok(stops) => Ok(
                        ResolvedPaint::Radial { center, radius, stops, spread: *spread },
                    ),
                },
            }
        },
        PaintValue::Conic { center, start_angle, stops, spread } => match point_value(
            *center,
            values,
            at,
            "conic gradient center",
        ) {
            Err(e) => Err(e),
            Ok(center) => match number_value(
                *start_angle,
                values,
                at,
                "conic gradient start angle",
            ) {
                Err(e) => Err(e),
                Ok(start_angle) => match gradient_stops(stops, values, at, node) {
                    Err(e) => Err(e),
                    Ok(stops) => Ok(
                        ResolvedPaint::Conic { center, start_angle, stops, spread: *spread },
                    ),
                },
            },
        },
    }
}

/// Accepted gradient stops are sorted and lie between 0 and 1.
pub proof fn accepted_stops_are_sorted(
    bindings: Seq<GradientStopValue>,
    values: Seq<Value>,
    at: int,
    node: Seq<char>,
    n: nat,
    i: int,
)
    requires
        stops_bound(bindings, values, at, node, n) is Ok,
        0 <= i < n,
    ensures
        stops_bound(bindings, values, at, node, n)->Ok_0.len() == n,
        stops_bound(bindings, values, at, node, n)->Ok_0[i].0.within(num(ZERO), num(ONE)),
        i > 0 ==> stops_bound(bindings, values, at, node, n)->Ok_0[i - 1].0.le_spec(
            stops_bound(bindings, values, at, node, n)->Ok_0[i].0,
        ),
    decreases n,
{
    stops_len(bindings, values, at, node, (n - 1) as nat);
    if i < n - 1 {
        accepted_stops_are_sorted(bindings, values, at, node, (n - 1) as nat, i);
    } else if n > 1 {
        accepted_stops_are_sorted(bindings, values, at, node, (n - 1) as nat, n - 2);
    }
}

proof fn stops_len(
    bindings: Seq<GradientStopValue>,
    values: Seq<Value>,
    at: int,
    node: Seq<char>,
    n: nat,
)
    ensures
        stops_bound(bindings, values, at, node, n) is Ok ==> stops_bound(
            bindings,
            values,
            at,
            node,
            n,
        )->Ok_0.len() == n,
    decreases n,
{
    if n > 0 {
        stops_len(bindings, values, at, node, (n - 1) as nat);
    }
}

} // verus!
