//! 3D transforms: the style of a node, and the planes that nodes become.

use vstd::prelude::*;

use crate::artifact::SceneNode;
use crate::bindings::{style_value, style_valued};
use crate::effects::{
    layer_length, layer_perspective, layer_scalar, length_read, perspective_read, scalar_read,
    style_fault, PerspectiveLength,
};
use crate::eval::values_of;
use crate::layout_error::{laid, plain, LayoutError, LayoutFault};
use crate::recording::Rect;
use crate::scalar::{num, Scalar, ZERO};
use crate::table::same_text;
use crate::value::{Length, Length2, LengthUnit, MotionValue, Value};

verus! {

/// Area below which a projected plane is not to be seen: 1e-8.
pub const MIN_AREA: u64 = 0x3e45_798e_e230_8c3a;

/// Distance to the camera that a projected plane must keep: 1e-6.
pub const NEAR: u64 = 0x3eb0_c6f7_a0b5_ed8d;

/// One function of a 3D transform list.
#[derive(Clone, Copy, Debug, PartialEq, Eq, Structural)]
pub enum Css3dOp {
    TranslateX(Scalar),
    TranslateY(Scalar),
    TranslateZ(Scalar),
    TranslateXPercent(Scalar),
    TranslateYPercent(Scalar),
    RotateX(Scalar),
    RotateY(Scalar),
    RotateZ(Scalar),
    RotateAxis { x: Scalar, y: Scalar, z: Scalar, degrees: Scalar },
    ScaleX(Scalar),
    ScaleY(Scalar),
    ScaleZ(Scalar),
}

/// A transform function of one number.
#[derive(Clone, Copy, Debug, PartialEq, Eq, Structural)]
pub enum OpKind {
    TranslateX,
    TranslateY,
    TranslateZ,
    TranslateXPercent,
    TranslateYPercent,
    RotateX,
    RotateY,
    RotateZ,
    ScaleX,
    ScaleY,
    ScaleZ,
}

/// A component of a rotation axis.
#[derive(Clone, Copy, Debug, PartialEq, Eq, Structural)]
pub enum Axis {
    X,
    Y,
    Z,
}

/// The transform function that a property stands for.
pub open spec fn op_kind(property: Seq<char>) -> Option<OpKind> {
    if property == "motion-transform-3d-translate-x"@ {
        Some(OpKind::TranslateX)
    } else if property == "motion-transform-3d-translate-y"@ {
        Some(OpKind::TranslateY)
    } else if property == "motion-transform-3d-translate-z"@ {
        Some(OpKind::TranslateZ)
    } else if property == "motion-transform-3d-translate-x-percent"@ {
        Some(OpKind::TranslateXPercent)
    } else if property == "motion-transform-3d-translate-y-percent"@ {
        Some(OpKind::TranslateYPercent)
    } else if property == "motion-transform-3d-rotate-x"@ || property == "rotate-x"@ {
        Some(OpKind::RotateX)
    } else if property == "motion-transform-3d-rotate-y"@ || property == "rotate-y"@ {
        Some(OpKind::RotateY)
    } else if property == "motion-transform-3d-rotate-z"@ {
        Some(OpKind::RotateZ)
    } else if property == "motion-transform-3d-scale-x"@ {
        Some(OpKind::ScaleX)
    } else if property == "motion-transform-3d-scale-y"@ {
        Some(OpKind::ScaleY)
    } else if property == "motion-transform-3d-scale-z"@ {
        Some(OpKind::ScaleZ)
    } else {
        None
    }
}

fn find_op(property: &str) -> (r: Option<OpKind>)
    ensures
        r == op_kind(property@),
{
    if same_text(property, "motion-transform-3d-translate-x") {
        Some(OpKind::TranslateX)
    } else if same_text(property, "motion-transform-3d-translate-y") {
        Some(OpKind::TranslateY)
    } else if same_text(property, "motion-transform-3d-translate-z") {
        Some(OpKind::TranslateZ)
    } else if same_text(property, "motion-transform-3d-translate-x-percent") {
        Some(OpKind::TranslateXPercent)
    } else if same_text(property, "motion-transform-3d-translate-y-percent") {
        Some(OpKind::TranslateYPercent)
    } else if same_text(property, "motion-transform-3d-rotate-x") || same_text(
        property,
        "rotate-x",
    ) {
        Some(OpKind::RotateX)
    } else if same_text(property, "motion-transform-3d-rotate-y") || same_text(
        property,
        "rotate-y",
    ) {
        Some(OpKind::RotateY)
    } else if same_text(property, "motion-transform-3d-rotate-z") {
        Some(OpKind::RotateZ)
    } else if same_text(property, "motion-transform-3d-scale-x") {
        Some(OpKind::ScaleX)
    } else if same_text(property, "motion-transform-3d-scale-y") {
        Some(OpKind::ScaleY)
    } else if same_text(property, "motion-transform-3d-scale-z") {
        Some(OpKind::ScaleZ)
    } else {
        None
    }
}

impl OpKind {
    pub open spec fn label(self) -> Seq<char> {
        match self {
            OpKind::TranslateX => "translateX"@,
            OpKind::TranslateY => "translateY"@,
            OpKind::TranslateZ => "translateZ"@,
            OpKind::TranslateXPercent => "translateX"@,
            OpKind::TranslateYPercent => "translateY"@,
            OpKind::RotateX => "rotateX"@,
            OpKind::RotateY => "rotateY"@,
            OpKind::RotateZ => "rotateZ"@,
            OpKind::ScaleX => "scaleX"@,
            OpKind::ScaleY => "scaleY"@,
            OpKind::ScaleZ => "scaleZ"@,
        }
    }

    fn name(self) -> (r: &'static str)
        ensures
            r@ == self.label(),
    {
        match self {
            OpKind::TranslateX => "translateX",
            OpKind::TranslateY => "translateY",
            OpKind::TranslateZ => "translateZ",
            OpKind::TranslateXPercent => "translateX",
            OpKind::TranslateYPercent => "translateY",
            OpKind::RotateX => "rotateX",
            OpKind::RotateY => "rotateY",
            OpKind::RotateZ => "rotateZ",
            OpKind::ScaleX => "scaleX",
            OpKind::ScaleY => "scaleY",
            OpKind::ScaleZ => "scaleZ",
        }
    }

    pub open spec fn with(self, x: Scalar) -> Css3dOp {
        match self {
            OpKind::TranslateX => Css3dOp::TranslateX(x),
            OpKind::TranslateY => Css3dOp::TranslateY(x),
            OpKind::TranslateZ => Css3dOp::TranslateZ(x),
            OpKind::TranslateXPercent => Css3dOp::TranslateXPercent(x),
            OpKind::TranslateYPercent => Css3dOp::TranslateYPercent(x),
            OpKind::RotateX => Css3dOp::RotateX(x),
            OpKind::RotateY => Css3dOp::RotateY(x),
            OpKind::RotateZ => Css3dOp::RotateZ(x),
            OpKind::ScaleX => Css3dOp::ScaleX(x),
            OpKind::ScaleY => Css3dOp::ScaleY(x),
            OpKind::ScaleZ => Css3dOp::ScaleZ(x),
        }
    }

    fn apply(self, x: Scalar) -> (r: Css3dOp)
        ensures
            r == self.with(x),
    {
        match self {
            OpKind::TranslateX => Css3dOp::TranslateX(x),
            OpKind::TranslateY => Css3dOp::TranslateY(x),
            OpKind::TranslateZ => Css3dOp::TranslateZ(x),
            OpKind::TranslateXPercent => Css3dOp::TranslateXPercent(x),
            OpKind::TranslateYPercent => Css3dOp::TranslateYPercent(x),
            OpKind::RotateX => Css3dOp::RotateX(x),
            OpKind::RotateY => Css3dOp::RotateY(x),
            OpKind::RotateZ => Css3dOp::RotateZ(x),
            OpKind::ScaleX => Css3dOp::ScaleX(x),
            OpKind::ScaleY => Css3dOp::ScaleY(x),
            OpKind::ScaleZ => Css3dOp::ScaleZ(x),
        }
    }
}

/// The 3D style of a node.
#[derive(Debug)]
pub struct Css3dStyle {
    pub ops: Vec<Css3dOp>,
    pub preserve_3d: bool,
    pub backface_hidden: bool,
    pub perspective: Option<PerspectiveLength>,
    pub transform_origin: Option<Length2>,
    pub perspective_origin_x: Option<Length>,
    pub perspective_origin_y: Option<Length>,
}

/// A 3D style by its contents.
#[verifier::ext_equal]
pub struct Styled3d {
    pub ops: Seq<Css3dOp>,
    pub preserve_3d: bool,
    pub backface_hidden: bool,
    pub perspective: Option<PerspectiveLength>,
    pub transform_origin: Option<Length2>,
    pub perspective_origin_x: Option<Length>,
    pub perspective_origin_y: Option<Length>,
}

impl View for Css3dStyle {
    type V = Styled3d;

    open spec fn view(&self) -> Styled3d {
        Styled3d {
            ops: self.ops@,
            preserve_3d: self.preserve_3d,
            backface_hidden: self.backface_hidden,
            perspective: self.perspective,
            transform_origin: self.transform_origin,
            perspective_origin_x: self.perspective_origin_x,
            perspective_origin_y: self.perspective_origin_y,
        }
    }
}

/// The components of a rotation axis that have been read.
#[derive(Clone, Copy, Debug, PartialEq, Eq, Structural)]
pub struct PendingAxis {
    pub x: Option<Scalar>,
    pub y: Option<Scalar>,
    pub z: Option<Scalar>,
}

/// A style as far as it has been read.
#[verifier::ext_equal]
pub struct Reading {
    pub style: Styled3d,
    pub axis: PendingAxis,
}

pub open spec fn no_axis() -> PendingAxis {
    PendingAxis { x: None, y: None, z: None }
}

pub open spec fn unread() -> Reading {
    Reading {
        style: Styled3d {
            ops: Seq::empty(),
            preserve_3d: false,
            backface_hidden: false,
            perspective: None,
            transform_origin: None,
            perspective_origin_x: None,
            perspective_origin_y: None,
        },
        axis: no_axis(),
    }
}

/// A rotation about an axis: its angle must follow three components that are not all zero.
pub open spec fn axis_turn(r: Reading, v: Value, node: Seq<char>) -> Result<Reading, LayoutFault> {
    match (r.axis.x, r.axis.y, r.axis.z) {
        (Some(x), Some(y), Some(z)) => if x.eq_spec(num(ZERO)) && y.eq_spec(num(ZERO))
            && z.eq_spec(num(ZERO)) {
            style_fault(node, "rotate3d"@, "rotate3d axis must not be the zero vector"@)
        } else {
            match scalar_read(v, node, "rotate3d.angle"@) {
                Err(f) => Err(f),
                Ok(degrees) => Ok(
                    Reading {
                        style: Styled3d {
                            ops: r.style.ops.push(Css3dOp::RotateAxis { x, y, z, degrees }),
                            ..r.style
                        },
                        axis: no_axis(),
                    },
                ),
            }
        },
        _ => style_fault(
            node,
            "rotate3d"@,
            "rotate3d angle must follow its three axis components"@,
        ),
    }
}

/// The axis component that a property stands for, with its label.
pub open spec fn axis_of(property: Seq<char>) -> Option<Axis> {
    if property == "motion-transform-3d-rotate-axis-x"@ {
        Some(Axis::X)
    } else if property == "motion-transform-3d-rotate-axis-y"@ {
        Some(Axis::Y)
    } else if property == "motion-transform-3d-rotate-axis-z"@ {
        Some(Axis::Z)
    } else {
        None
    }
}

pub open spec fn axis_label(axis: Axis) -> Seq<char> {
    match axis {
        Axis::X => "rotate3d.x"@,
        Axis::Y => "rotate3d.y"@,
        Axis::Z => "rotate3d.z"@,
    }
}

pub open spec fn axis_with(p: PendingAxis, axis: Axis, x: Scalar) -> PendingAxis {
    match axis {
        Axis::X => PendingAxis { x: Some(x), ..p },
        Axis::Y => PendingAxis { y: Some(x), ..p },
        Axis::Z => PendingAxis { z: Some(x), ..p },
    }
}

/// How a perspective origin is written.
#[derive(Clone, Copy, Debug, PartialEq, Eq, Structural)]
pub enum OriginForm {
    Length,
    Px,
    Percent,
}

/// The perspective origin that a property stands for: on the horizontal side or not, and its form.
pub open spec fn origin_of(property: Seq<char>) -> Option<(bool, OriginForm)> {
    if property == "motion-perspective-origin-x"@ {
        Some((true, OriginForm::Length))
    } else if property == "motion-perspective-origin-y"@ {
        Some((false, OriginForm::Length))
    } else if property == "motion-perspective-origin-x-px"@ {
        Some((true, OriginForm::Px))
    } else if property == "motion-perspective-origin-y-px"@ {
        Some((false, OriginForm::Px))
    } else if property == "motion-perspective-origin-x-percent"@ {
        Some((true, OriginForm::Percent))
    } else if property == "motion-perspective-origin-y-percent"@ {
        Some((false, OriginForm::Percent))
    } else {
        None
    }
}

pub open spec fn origin_label(horizontal: bool) -> Seq<char> {
    if horizontal { "perspectiveOrigin.x"@ } else { "perspectiveOrigin.y"@ }
}

/// A perspective origin in its form.
pub open spec fn origin_read(v: Value, form: OriginForm, node: Seq<char>, label: Seq<char>) -> Result<
    Length,
    LayoutFault,
> {
    match form {
        OriginForm::Length => length_read(v, node, label),
        OriginForm::Px => match scalar_read(v, node, label) {
            Ok(value) => Ok(Length { value, unit: LengthUnit::Px }),
            Err(f) => Err(f),
        },
        OriginForm::Percent => match scalar_read(v, node, label) {
            Ok(value) => Ok(Length { value, unit: LengthUnit::Percent }),
            Err(f) => Err(f),
        },
    }
}

/// What one style adds to a 3D style.
pub open spec fn read_step(r: Reading, property: Seq<char>, v: Value, node: Seq<char>) -> Result<
    Reading,
    LayoutFault,
> {
    match op_kind(property) {
        Some(kind) => match scalar_read(v, node, kind.label()) {
            Err(f) => Err(f),
            Ok(x) => Ok(
                Reading {
                    style: Styled3d { ops: r.style.ops.push(kind.with(x)), ..r.style },
                    axis: r.axis,
                },
            ),
        },
        None => match axis_of(property) {
            Some(axis) => match scalar_read(v, node, axis_label(axis)) {
                Err(f) => Err(f),
                Ok(x) => Ok(Reading { style: r.style, axis: axis_with(r.axis, axis, x) }),
            },
            None => match origin_of(property) {
                Some((horizontal, form)) => match origin_read(
                    v,
                    form,
                    node,
                    origin_label(horizontal),
                ) {
                    Err(f) => Err(f),
                    Ok(l) => Ok(
                        Reading {
                            style: if horizontal {
                                Styled3d { perspective_origin_x: Some(l), ..r.style }
                            } else {
                                Styled3d { perspective_origin_y: Some(l), ..r.style }
                            },
                            axis: r.axis,
                        },
                    ),
                },
                None => read_rest(r, property, v, node),
            },
        },
    }
}

/// What the remaining properties add to a 3D style.
pub open spec fn read_rest(r: Reading, property: Seq<char>, v: Value, node: Seq<char>) -> Result<
    Reading,
    LayoutFault,
> {
    if property == "motion-transform-3d-rotate-axis-angle"@ {
        axis_turn(r, v, node)
    } else if property == "transform-style"@ {
        Ok(
            Reading {
                style: Styled3d {
                    preserve_3d: v matches Value::Enum(s) && s == "preserve-3d"@,
                    ..r.style
                },
                axis: r.axis,
            },
        )
    } else if property == "backface-visibility"@ {
        Ok(
            Reading {
                style: Styled3d {
                    backface_hidden: v matches Value::Enum(s) && s == "hidden"@,
                    ..r.style
                },
                axis: r.axis,
            },
        )
    } else if property == "perspective"@ {
        match perspective_read(v, node) {
            Err(f) => Err(f),
            Ok(p) => Ok(
                Reading { style: Styled3d { perspective: Some(p), ..r.style }, axis: r.axis },
            ),
        }
    } else if property == "transform-origin"@ {
        match v {
            Value::Length2(l) => Ok(
                Reading { style: Styled3d { transform_origin: Some(l), ..r.style }, axis: r.axis },
            ),
            _ => style_fault(
                node,
                "transform-origin"@,
                "CSS 3D transformOrigin must be a two-axis length"@,
            ),
        }
    } else {
        Ok(r)
    }
}

/// The 3D style of the first `n` styles.
pub open spec fn reading(node: SceneNode, values: Seq<Value>, at: int, n: nat) -> Result<
    Reading,
    LayoutFault,
>
    decreases n,
{
    if n == 0 {
        Ok(unread())
    } else {
        match reading(node, values, at, (n - 1) as nat) {
            Err(f) => Err(f),
            Ok(r) => match style_valued(node.styles@[n - 1].value, values, at) {
                Err(f) => Err(f),
                Ok(v) => read_step(r, node.styles@[n - 1].property@, v, node.key@),
            },
        }
    }
}

/// The 3D style of a node.
pub open spec fn css_3d_of(node: SceneNode, values: Seq<Value>, at: int) -> Result<
    Styled3d,
    LayoutFault,
> {
    match reading(node, values, at, node.styles@.len()) {
        Err(f) => Err(f),
        Ok(r) => Ok(r.style),
    }
}

proof fn reading_stuck(node: SceneNode, values: Seq<Value>, at: int, m: nat, n: nat)
    requires
        m <= n,
        reading(node, values, at, m) is Err,
    ensures
        reading(node, values, at, n) == reading(node, values, at, m),
    decreases n - m,
{
    if m < n {
        reading_stuck(node, values, at, m, (n - 1) as nat);
    }
}

fn find_axis(property: &str) -> (r: Option<Axis>)
    ensures
        r == axis_of(property@),
{
    if same_text(property, "motion-transform-3d-rotate-axis-x") {
        Some(Axis::X)
    } else if same_text(property, "motion-transform-3d-rotate-axis-y") {
        Some(Axis::Y)
    } else if same_text(property, "motion-transform-3d-rotate-axis-z") {
        Some(Axis::Z)
    } else {
        None
    }
}

fn axis_name(axis: Axis) -> (r: &'static str)
    ensures
        r@ == axis_label(axis),
{
    match axis {
        Axis::X => "rotate3d.x",
        Axis::Y => "rotate3d.y",
        Axis::Z => "rotate3d.z",
    }
}

fn find_origin(property: &str) -> (r: Option<(bool, OriginForm)>)
    ensures
        r == origin_of(property@),
{
    if same_text(property, "motion-perspective-origin-x") {
        Some((true, OriginForm::Length))
    } else if same_text(property, "motion-perspective-origin-y") {
        Some((false, OriginForm::Length))
    } else if same_text(property, "motion-perspective-origin-x-px") {
        Some((true, OriginForm::Px))
    } else if same_text(property, "motion-perspective-origin-y-px") {
        Some((false, OriginForm::Px))
    } else if same_text(property, "motion-perspective-origin-x-percent") {
        Some((true, OriginForm::Percent))
    } else if same_text(property, "motion-perspective-origin-y-percent") {
        Some((false, OriginForm::Percent))
    } else {
        None
    }
}

fn read_origin(value: &MotionValue, form: OriginForm, node: &str, label: &str) -> (r: Result<
    Length,
    LayoutError,
>)
    ensures
        plain(r) == origin_read(value@, form, node@, label@),
{
    match form {
        OriginForm::Length => layer_length(value, node, label),
        OriginForm::Px => match layer_scalar(value, node, label) {
            Ok(value) => Ok(Length { value, unit: LengthUnit::Px }),
            Err(e) => Err(e),
        },
        OriginForm::Percent => match layer_scalar(value, node, label) {
            Ok(value) => Ok(Length { value, unit: LengthUnit::Percent }),
            Err(e) => Err(e),
        },
    }
}

fn enum_is(value: &MotionValue, word: &str) -> (r: bool)
    ensures
        r == (value@ matches Value::Enum(s) && s == word@),
{
    match value {
        MotionValue::Enum(s) => same_text(s.as_str(), word),
        _ => false,
    }
}

fn bad(node: &str, property: &str, reason: &str) -> (r: LayoutError)
    ensures
        r@ == LayoutFault::BadStyle(node@, property@, reason@),
{
    LayoutError::BadStyle {
        node: node.to_owned(),
        declarations: property.to_owned(),
        reason: reason.to_owned(),
    }
}

fn turn_axis(style: &mut Css3dStyle, axis: PendingAxis, value: &MotionValue, node: &str) -> (r: Result<
    PendingAxis,
    LayoutError,
>)
    ensures
        match r {
            Ok(axis2) => axis_turn(Reading { style: old(style)@, axis }, value@, node@) == Ok::<
                Reading,
                LayoutFault,
            >(Reading { style: final(style)@, axis: axis2 }),
            Err(e) => axis_turn(Reading { style: old(style)@, axis }, value@, node@) == Err::<
                Reading,
                LayoutFault,
            >(e@),
        },
{
    let zero = Scalar::from_bits(ZERO);
    match (axis.x, axis.y, axis.z) {
        (Some(x), Some(y), Some(z)) => {
            if x.eq_value(zero) && y.eq_value(zero) && z.eq_value(zero) {
                return Err(bad(node, "rotate3d", "rotate3d axis must not be the zero vector"));
            }
            match layer_scalar(value, node, "rotate3d.angle") {
                Err(e) => Err(e),
                Ok(degrees) => {
                    style.ops.push(Css3dOp::RotateAxis { x, y, z, degrees });
                    Ok(PendingAxis { x: None, y: None, z: None })
                },
            }
        },
        _ => Err(
            bad(node, "rotate3d", "rotate3d angle must follow its three axis components"),
        ),
    }
}

fn apply_style(
    style: &mut Css3dStyle,
    axis: PendingAxis,
    property: &str,
    value: &MotionValue,
    node: &str,
) -> (r: Result<PendingAxis, LayoutError>)
    ensures
        match r {
            Ok(axis2) => read_step(
                Reading { style: old(style)@, axis },
                property@,
                value@,
                node@,
            ) == Ok::<Reading, LayoutFault>(Reading { style: final(style)@, axis: axis2 }),
            Err(e) => read_step(
                Reading { style: old(style)@, axis },
                property@,
                value@,
                node@,
            ) == Err::<Reading, LayoutFault>(e@),
        },
{
    match find_op(property) {
        Some(kind) => {
            return match layer_scalar(value, node, kind.name()) {
                Err(e) => Err(e),
                Ok(x) => {
                    style.ops.push(kind.apply(x));
                    Ok(axis)
                },
            };
        },
        None => {},
    }
    match find_axis(property) {
        Some(which) => {
            return match layer_scalar(value, node, axis_name(which)) {
                Err(e) => Err(e),
                Ok(x) => Ok(
                    match which {
                        Axis::X => PendingAxis { x: Some(x), ..axis },
                        Axis::Y => PendingAxis { y: Some(x), ..axis },
                        Axis::Z => PendingAxis { z: Some(x), ..axis },
                    },
                ),
            };
        },
        None => {},
    }
    match find_origin(property) {
        Some((horizontal, form)) => {
            let label = if horizontal { "perspectiveOrigin.x" } else { "perspectiveOrigin.y" };
            return match read_origin(value, form, node, label) {
                Err(e) => Err(e),
                Ok(l) => {
                    if horizontal {
                        style.perspective_origin_x = Some(l);
                    } else {
                        style.perspective_origin_y = Some(l);
                    }
                    Ok(axis)
                },
            };
        },
        None => {},
    }
    if same_text(property, "motion-transform-3d-rotate-axis-angle") {
        return turn_axis(style, axis, value, node);
    }
    if same_text(property, "transform-style") {
        style.preserve_3d = enum_is(value, "preserve-3d");
    } else if same_text(property, "backface-visibility") {
        style.backface_hidden = enum_is(value, "hidden");
    } else if same_text(property, "perspective") {
        match layer_perspective(value, node) {
            Ok(p) => {
                style.perspective = Some(p);
            },
            Err(e) => {
                return Err(e);
            },
        }
    } else if same_text(property, "transform-origin") {
        match value {
            MotionValue::Length2(l) => {
                style.transform_origin = Some(*l);
            },
            _ => {
                return Err(
                    bad(
                        node,
                        "transform-origin",
                        "CSS 3D transformOrigin must be a two-axis length",
                    ),
                );
            },
        }
    }
    Ok(axis)
}

/// The 3D style of a node this frame.
pub fn css_3d_style(node: &SceneNode, values: &Vec<MotionValue>, at: usize) -> (r: Result<
    Css3dStyle,
    LayoutError,
>)
    ensures
        laid(r) == css_3d_of(*node, values_of(values@), at as int),
{
    let mut style = Css3dStyle {
        ops: Vec::new(),
        preserve_3d: false,
        backface_hidden: false,
        perspective: None,
        transform_origin: None,
        perspective_origin_x: None,
        perspective_origin_y: None,
    };
    let mut axis = PendingAxis { x: None, y: None, z: None };
    let mut i: usize = 0;
    assert(style@ =~= unread().style);
    while i < node.styles.len()
        invariant
            i <= node.styles@.len(),
            reading(*node, values_of(values@), at as int, i as nat) == Ok::<Reading, LayoutFault>(
                Reading { style: style@, axis },
            ),
        decreases node.styles@.len() - i,
    {
        proof {
            if reading(*node, values_of(values@), at as int, (i + 1) as nat) is Err {
                reading_stuck(
                    *node,
                    values_of(values@),
                    at as int,
                    (i + 1) as nat,
                    node.styles@.len(),
                );
            }
        }
        let v = match style_value(&node.styles[i].value, values, at) {
            Ok(v) => v,
            Err(e) => {
                return Err(e);
            },
        };
        axis = match apply_style(
            &mut style,
            axis,
            node.styles[i].property.as_str(),
            v,
            node.key.as_str(),
        ) {
            Ok(axis) => axis,
            Err(e) => {
                return Err(e);
            },
        };
        i = i + 1;
    }
    Ok(style)
}

/// What the host computes of a node's plane: its corners before perspective with their distances to
/// the camera, its projected corners and signed area, and its center. Absent where not finite.
#[derive(Clone, Copy, Debug)]
pub struct PlaneFacts {
    /// Whether all four transformed corners are finite.
    pub corners: bool,
    /// Distances of the four corners to the camera, where there is a perspective.
    pub distances: Option<(Scalar, Scalar, Scalar, Scalar)>,
    pub signed_area: Scalar,
    /// Depth of the transformed center, where it is finite.
    pub depth: Option<Scalar>,
}

/// What a node contributes to the 3D painting order.
#[derive(Clone, Copy, Debug, PartialEq, Eq, Structural)]
pub enum PlaneRecord {
    /// The node is no plane.
    Flat,
    /// A projected plane.
    Projected { depth: Scalar, hidden: bool },
    /// Only a depth among siblings.
    Depth { depth: Scalar },
}

/// Whether a node becomes a plane of its own.
pub open spec fn is_plane(style: Styled3d, inherited: bool, rect: Rect) -> bool {
    !style.preserve_3d && (inherited || style.ops.len() > 0 || style.backface_hidden)
        && has_area(rect)
}

pub open spec fn has_area(rect: Rect) -> bool {
    num(ZERO).lt_spec(rect.width) && num(ZERO).lt_spec(rect.height)
}

/// Whether a corner is too close to the camera.
pub open spec fn crosses(distance: Scalar) -> bool {
    !distance.finite() || distance.le_spec(num(NEAR))
}

pub open spec fn any_crosses(d: Option<(Scalar, Scalar, Scalar, Scalar)>) -> bool {
    d matches Some(d) && (crosses(d.0) || crosses(d.1) || crosses(d.2) || crosses(d.3))
}

/// What a node contributes to the 3D painting order; `inherited` says whether it stands in a shared
/// 3D space.
pub open spec fn plane_of(
    style: Styled3d,
    inherited: bool,
    rect: Rect,
    facts: PlaneFacts,
    node: Seq<char>,
) -> Result<PlaneRecord, LayoutFault> {
    if is_plane(style, inherited, rect) {
        if !facts.corners {
            style_fault(node, "transform"@, "CSS 3D transform produced a non-finite plane"@)
        } else if any_crosses(facts.distances) {
            style_fault(
                node,
                "perspective"@,
                "CSS 3D plane reached or crossed the perspective camera"@,
            )
        } else {
            match facts.depth {
                None => style_fault(
                    node,
                    "transform"@,
                    "CSS 3D transform produced a non-finite center"@,
                ),
                Some(depth) => Ok(
                    PlaneRecord::Projected {
                        depth,
                        hidden: facts.signed_area.abs_spec().le_spec(num(MIN_AREA)) || (
                        style.backface_hidden && facts.signed_area.lt_spec(num(ZERO))),
                    },
                ),
            }
        }
    } else if style.preserve_3d && inherited && has_area(rect) && facts.depth is Some {
        Ok(PlaneRecord::Depth { depth: facts.depth->0 })
    } else {
        Ok(PlaneRecord::Flat)
    }
}

fn too_close(distance: Scalar) -> (r: bool)
    ensures
        r == crosses(distance),
{
    !distance.is_finite() || distance.le(Scalar::from_bits(NEAR))
}

/// What a node contributes to the 3D painting order.
pub fn css_3d_plane(
    style: &Css3dStyle,
    inherited: bool,
    rect: Rect,
    facts: PlaneFacts,
    node: &str,
) -> (r: Result<PlaneRecord, LayoutError>)
    ensures
        plain(r) == plane_of(style@, inherited, rect, facts, node@),
{
    let zero = Scalar::from_bits(ZERO);
    let area: bool = zero.lt(rect.width) && zero.lt(rect.height);
    if !style.preserve_3d && (inherited || style.ops.len() > 0 || style.backface_hidden) && area {
        if !facts.corners {
            return Err(
                bad(node, "transform", "CSS 3D transform produced a non-finite plane"),
            );
        }
        match facts.distances {
            Some(d) => {
                if too_close(d.0) || too_close(d.1) || too_close(d.2) || too_close(d.3) {
                    return Err(
                        bad(
                            node,
                            "perspective",
                            "CSS 3D plane reached or crossed the perspective camera",
                        ),
                    );
                }
            },
            None => {},
        }
        return match facts.depth {
            None => Err(bad(node, "transform", "CSS 3D transform produced a non-finite center")),
            Some(depth) => {
                let hidden: bool = facts.signed_area.abs().le(Scalar::from_bits(MIN_AREA)) || (
                style.backface_hidden && facts.signed_area.lt(zero));
                Ok(PlaneRecord::Projected { depth, hidden })
            },
        };
    }
    if style.preserve_3d && inherited && area {
        match facts.depth {
            Some(depth) => {
                return Ok(PlaneRecord::Depth { depth });
            },
            None => {},
        }
    }
    Ok(PlaneRecord::Flat)
}

/// The 3D space that a node hands to its children.
#[derive(Clone, Copy, Debug, PartialEq, Eq, Structural)]
pub enum ChildSpace {
    /// The node's own space, with its matrix and perspective.
    Shared,
    /// A flat space seen through the node's perspective.
    Viewed,
    /// A flat space.
    Flat,
}

/// The 3D space that a node hands to its children.
pub open spec fn child_space_of(style: Styled3d) -> ChildSpace {
    if style.preserve_3d {
        ChildSpace::Shared
    } else if style.perspective is Some {
        ChildSpace::Viewed
    } else {
        ChildSpace::Flat
    }
}

pub fn child_space(style: &Css3dStyle) -> (r: ChildSpace)
    ensures
        r == child_space_of(style@),
{
    if style.preserve_3d {
        ChildSpace::Shared
    } else if style.perspective.is_some() {
        ChildSpace::Viewed
    } else {
        ChildSpace::Flat
    }
}

/// A hidden back face, or a plane seen edge-on, is never shown.
pub proof fn backfaces_are_hidden(
    style: Styled3d,
    inherited: bool,
    rect: Rect,
    facts: PlaneFacts,
    node: Seq<char>,
)
    requires
        style.backface_hidden,
        facts.signed_area.lt_spec(num(ZERO)),
    ensures
        plane_of(style, inherited, rect, facts, node) matches Ok(
            PlaneRecord::Projected { depth, hidden },
        ) ==> hidden,
{
}

} // verus!
