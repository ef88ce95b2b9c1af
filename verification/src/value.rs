//! Typed values of the scene and the controls that accept them.

use vstd::prelude::*;

use crate::path::{all_finite, point_eq, same_point, same_verbs, Path, PathData};
use crate::recording::{Point, Rect, Rgba};
use crate::scalar::{Scalar, SIGN, whole_is_unique};
use crate::table::{ascending, same_text, Entry};
use crate::text::{decimal, joined, numeral};

verus! {

#[derive(Clone, Copy, Debug, PartialEq, Eq, Structural)]
pub enum LengthUnit {
    Px,
    Percent,
    Rem,
    Em,
    Vw,
    Vh,
}

#[derive(Clone, Copy, Debug, PartialEq, Eq, Structural)]
pub struct Length {
    pub value: Scalar,
    pub unit: LengthUnit,
}

impl Length {
    pub fn px(value: Scalar) -> (r: Length)
        ensures
            r == (Length { value, unit: LengthUnit::Px }),
    {
        Length { value, unit: LengthUnit::Px }
    }
}

#[derive(Clone, Copy, Debug, PartialEq, Eq, Structural)]
pub struct Length2 {
    pub x: Length,
    pub y: Length,
}

impl Length2 {
    pub fn px(x: Scalar, y: Scalar) -> (r: Length2)
        ensures
            r == (Length2 {
                x: Length { value: x, unit: LengthUnit::Px },
                y: Length { value: y, unit: LengthUnit::Px },
            }),
    {
        Length2 { x: Length::px(x), y: Length::px(y) }
    }
}

#[derive(Clone, Copy, Debug, PartialEq, Eq, Structural)]
pub enum AngleUnit {
    Deg,
    Rad,
    Turn,
}

#[derive(Clone, Copy, Debug, PartialEq, Eq, Structural)]
pub struct Angle {
    pub value: Scalar,
    pub unit: AngleUnit,
}

impl Angle {
    pub fn deg(value: Scalar) -> (r: Angle)
        ensures
            r == (Angle { value, unit: AngleUnit::Deg }),
    {
        Angle { value, unit: AngleUnit::Deg }
    }
}

/// A typed value.
#[derive(Debug, PartialEq, Eq)]
pub enum MotionValue {
    Number(Scalar),
    Bool(bool),
    Str(String),
    Enum(String),
    Length(Length),
    Length2(Length2),
    Angle(Angle),
    Color(Rgba),
    Point(Point),
    Vec2(Point),
    Rect(Rect),
    PathData(PathData),
}

/// A value by its contents.
#[verifier::ext_equal]
pub enum Value {
    Number(Scalar),
    Bool(bool),
    Str(Seq<char>),
    Enum(Seq<char>),
    Length(Length),
    Length2(Length2),
    Angle(Angle),
    Color(Rgba),
    Point(Point),
    Vec2(Point),
    Rect(Rect),
    PathData(Path),
}

impl View for MotionValue {
    type V = Value;

    open spec fn view(&self) -> Value {
        match *self {
            MotionValue::Number(x) => Value::Number(x),
            MotionValue::Bool(b) => Value::Bool(b),
            MotionValue::Str(s) => Value::Str(s@),
            MotionValue::Enum(s) => Value::Enum(s@),
            MotionValue::Length(l) => Value::Length(l),
            MotionValue::Length2(l) => Value::Length2(l),
            MotionValue::Angle(a) => Value::Angle(a),
            MotionValue::Color(c) => Value::Color(c),
            MotionValue::Point(p) => Value::Point(p),
            MotionValue::Vec2(p) => Value::Vec2(p),
            MotionValue::Rect(r) => Value::Rect(r),
            MotionValue::PathData(p) => Value::PathData(p@),
        }
    }
}

pub open spec fn finite_rect(r: Rect) -> bool {
    r.x.finite() && r.y.finite() && r.width.finite() && r.height.finite()
}

pub open spec fn rect_eq(a: Rect, b: Rect) -> bool {
    a.x.eq_spec(b.x) && a.y.eq_spec(b.y) && a.width.eq_spec(b.width) && a.height.eq_spec(b.height)
}

impl Value {
    /// Whether every number in the value is finite.
    pub open spec fn finite(self) -> bool {
        match self {
            Value::Number(x) => x.finite(),
            Value::Length(l) => l.value.finite(),
            Value::Length2(l) => l.x.value.finite() && l.y.value.finite(),
            Value::Angle(a) => a.value.finite(),
            Value::Point(p) => p.x.finite() && p.y.finite(),
            Value::Vec2(p) => p.x.finite() && p.y.finite(),
            Value::Rect(r) => finite_rect(r),
            Value::PathData(p) => all_finite(p.points),
            _ => true,
        }
    }

    /// Equality of two values of one kind; numbers compare as numbers.
    pub open spec fn same(self, other: Value) -> bool {
        match (self, other) {
            (Value::Number(a), Value::Number(b)) => a.eq_spec(b),
            (Value::Bool(a), Value::Bool(b)) => a == b,
            (Value::Str(a), Value::Str(b)) => a == b,
            (Value::Enum(a), Value::Enum(b)) => a == b,
            (Value::Length(a), Value::Length(b)) => a.unit == b.unit && a.value.eq_spec(b.value),
            (Value::Length2(a), Value::Length2(b)) => a.x.unit == b.x.unit && a.x.value.eq_spec(
                b.x.value,
            ) && a.y.unit == b.y.unit && a.y.value.eq_spec(b.y.value),
            (Value::Angle(a), Value::Angle(b)) => a.unit == b.unit && a.value.eq_spec(b.value),
            (Value::Color(a), Value::Color(b)) => a == b,
            (Value::Point(a), Value::Point(b)) => point_eq(a, b),
            (Value::Vec2(a), Value::Vec2(b)) => point_eq(a, b),
            (Value::Rect(a), Value::Rect(b)) => rect_eq(a, b),
            (Value::PathData(a), Value::PathData(b)) => a.verbs == b.verbs && a.points.len()
                == b.points.len() && forall|i: int|
                0 <= i < a.points.len() ==> point_eq(#[trigger] a.points[i], b.points[i]),
            _ => false,
        }
    }
}

impl MotionValue {
    pub fn is_finite(&self) -> (r: bool)
        ensures
            r == self@.finite(),
    {
        match self {
            MotionValue::Number(x) => x.is_finite(),
            MotionValue::Bool(_) | MotionValue::Str(_) | MotionValue::Enum(_)
            | MotionValue::Color(_) => true,
            MotionValue::Length(l) => l.value.is_finite(),
            MotionValue::Length2(l) => l.x.value.is_finite() && l.y.value.is_finite(),
            MotionValue::Angle(a) => a.value.is_finite(),
            MotionValue::Point(p) => p.x.is_finite() && p.y.is_finite(),
            MotionValue::Vec2(p) => p.x.is_finite() && p.y.is_finite(),
            MotionValue::Rect(r) => r.x.is_finite() && r.y.is_finite() && r.width.is_finite()
                && r.height.is_finite(),
            MotionValue::PathData(p) => {
                let mut i: usize = 0;
                while i < p.points.len()
                    invariant
                        i <= p.points@.len(),
                        forall|k: int|
                            0 <= k < i ==> crate::path::finite_point(#[trigger] p.points@[k]),
                        self@ == Value::PathData(p@),
                    decreases p.points@.len() - i,
                {
                    if !p.points[i].x.is_finite() || !p.points[i].y.is_finite() {
                        assert(!crate::path::finite_point(p@.points[i as int]));
                        return false;
                    }
                    i = i + 1;
                }
                true
            },
        }
    }

    pub fn duplicate(&self) -> (r: MotionValue)
        ensures
            r@ == self@,
    {
        match self {
            MotionValue::Number(x) => MotionValue::Number(*x),
            MotionValue::Bool(b) => MotionValue::Bool(*b),
            MotionValue::Str(s) => MotionValue::Str(s.clone()),
            MotionValue::Enum(s) => MotionValue::Enum(s.clone()),
            MotionValue::Length(l) => MotionValue::Length(*l),
            MotionValue::Length2(l) => MotionValue::Length2(*l),
            MotionValue::Angle(a) => MotionValue::Angle(*a),
            MotionValue::Color(c) => MotionValue::Color(*c),
            MotionValue::Point(p) => MotionValue::Point(*p),
            MotionValue::Vec2(p) => MotionValue::Vec2(*p),
            MotionValue::Rect(r) => MotionValue::Rect(*r),
            MotionValue::PathData(p) => MotionValue::PathData(p.duplicate()),
        }
    }

    pub fn equals(&self, other: &MotionValue) -> (r: bool)
        ensures
            r == self@.same(other@),
    {
        match (self, other) {
            (MotionValue::Number(a), MotionValue::Number(b)) => a.eq_value(*b),
            (MotionValue::Bool(a), MotionValue::Bool(b)) => *a == *b,
            (MotionValue::Str(a), MotionValue::Str(b)) => same_text(a.as_str(), b.as_str()),
            (MotionValue::Enum(a), MotionValue::Enum(b)) => same_text(a.as_str(), b.as_str()),
            (MotionValue::Length(a), MotionValue::Length(b)) => a.unit == b.unit
                && a.value.eq_value(b.value),
            (MotionValue::Length2(a), MotionValue::Length2(b)) => a.x.unit == b.x.unit
                && a.x.value.eq_value(b.x.value) && a.y.unit == b.y.unit && a.y.value.eq_value(
                b.y.value,
            ),
            (MotionValue::Angle(a), MotionValue::Angle(b)) => a.unit == b.unit
                && a.value.eq_value(b.value),
            (MotionValue::Color(a), MotionValue::Color(b)) => *a == *b,
            (MotionValue::Point(a), MotionValue::Point(b)) => same_point(a, b),
            (MotionValue::Vec2(a), MotionValue::Vec2(b)) => same_point(a, b),
            (MotionValue::Rect(a), MotionValue::Rect(b)) => a.x.eq_value(b.x) && a.y.eq_value(b.y)
                && a.width.eq_value(b.width) && a.height.eq_value(b.height),
            (MotionValue::PathData(a), MotionValue::PathData(b)) => {
                if !same_verbs(&a.verbs, &b.verbs) || a.points.len() != b.points.len() {
                    return false;
                }
                let mut i: usize = 0;
                while i < a.points.len()
                    invariant
                        self@ == Value::PathData(a@),
                        other@ == Value::PathData(b@),
                        a@.verbs == b@.verbs,
                        i <= a.points@.len() == b.points@.len(),
                        forall|k: int|
                            0 <= k < i ==> point_eq(#[trigger] a@.points[k], b@.points[k]),
                    decreases a.points@.len() - i,
                {
                    if !same_point(&a.points[i], &b.points[i]) {
                        assert(!point_eq(a@.points[i as int], b@.points[i as int]));
                        return false;
                    }
                    i = i + 1;
                }
                true
            },
            _ => false,
        }
    }
}

/// Shape of the curve between two stops.
#[derive(Clone, Copy, Debug, PartialEq, Eq, Structural)]
pub enum MotionEasing {
    Linear,
    Ease,
    EaseIn,
    EaseOut,
    EaseInOut,
    CubicBezier { x1: Scalar, y1: Scalar, x2: Scalar, y2: Scalar },
}

impl MotionEasing {
    pub open spec fn finite(self) -> bool {
        match self {
            MotionEasing::CubicBezier { x1, y1, x2, y2 } => x1.finite() && y1.finite()
                && x2.finite() && y2.finite(),
            _ => true,
        }
    }

    pub fn is_finite(&self) -> (r: bool)
        ensures
            r == self.finite(),
    {
        match self {
            MotionEasing::CubicBezier { x1, y1, x2, y2 } => x1.is_finite() && y1.is_finite()
                && x2.is_finite() && y2.is_finite(),
            _ => true,
        }
    }
}

/// The digits of a whole number below 2^53, with its sign.
pub open spec fn whole_text(x: Scalar, m: nat) -> Seq<char> {
    if x.bits >= SIGN { "-"@ + numeral(m) } else { numeral(m) }
}

/// Whether `out` is how a number is written: whole numbers below 2^53 in decimal digits, others as
/// the host writes them.
pub open spec fn number_written<F: Fn(&MotionValue) -> String>(
    host: F,
    x: Scalar,
    out: Seq<char>,
) -> bool {
    if exists|m: nat| #[trigger] x.whole(m) {
        exists|m: nat| #[trigger] x.whole(m) && out == whole_text(x, m)
    } else {
        host_written(host, Value::Number(x), out)
    }
}

/// Whether the host writes a value as `out`.
pub open spec fn host_written<F: Fn(&MotionValue) -> String>(
    host: F,
    value: Value,
    out: Seq<char>,
) -> bool {
    exists|v: MotionValue, s: String| #[trigger]
        call_ensures(host, (&v,), s) && v@ == value && s@ == out
}

pub open spec fn unit_text(unit: LengthUnit) -> Seq<char> {
    match unit {
        LengthUnit::Px => "px"@,
        LengthUnit::Percent => "%"@,
        LengthUnit::Rem => "rem"@,
        LengthUnit::Em => "em"@,
        LengthUnit::Vw => "vw"@,
        LengthUnit::Vh => "vh"@,
    }
}

pub open spec fn angle_text(unit: AngleUnit) -> Seq<char> {
    match unit {
        AngleUnit::Deg => "deg"@,
        AngleUnit::Rad => "rad"@,
        AngleUnit::Turn => "turn"@,
    }
}

/// Whether `out` is a number followed by a unit.
pub open spec fn dimension_written<F: Fn(&MotionValue) -> String>(
    host: F,
    x: Scalar,
    unit: Seq<char>,
    out: Seq<char>,
) -> bool {
    exists|digits: Seq<char>| #[trigger]
        number_written(host, x, digits) && out == digits + unit
}

/// Whether `out` is the CSS token of a value. Colors, points, rectangles and paths are written by
/// the host.
pub open spec fn token_written<F: Fn(&MotionValue) -> String>(
    host: F,
    value: Value,
    out: Seq<char>,
) -> bool {
    match value {
        Value::Number(x) => number_written(host, x, out),
        Value::Bool(b) => out == (if b { "true"@ } else { "false"@ }),
        Value::Str(s) => out == s,
        Value::Enum(s) => out == s,
        Value::Length(l) => dimension_written(host, l.value, unit_text(l.unit), out),
        Value::Length2(l) => exists|x: Seq<char>, y: Seq<char>|
            #![trigger dimension_written(host, l.x.value, unit_text(l.x.unit), x), dimension_written(host, l.y.value, unit_text(l.y.unit), y)]
            dimension_written(host, l.x.value, unit_text(l.x.unit), x) && dimension_written(
                host,
                l.y.value,
                unit_text(l.y.unit),
                y,
            ) && out == x + " "@ + y,
        Value::Angle(a) => dimension_written(host, a.value, angle_text(a.unit), out),
        _ => host_written(host, value, out),
    }
}

/// Whether the host always writes a value in the same way.
pub open spec fn single_text<F: Fn(&MotionValue) -> String>(host: F) -> bool {
    forall|v: Value, a: Seq<char>, b: Seq<char>| #[trigger]
        host_written(host, v, a) && #[trigger] host_written(host, v, b) ==> a == b
}

proof fn numbers_are_determined<F: Fn(&MotionValue) -> String>(
    host: F,
    x: Scalar,
    a: Seq<char>,
    b: Seq<char>,
)
    requires
        single_text(host),
        number_written(host, x, a),
        number_written(host, x, b),
    ensures
        a == b,
{
    if exists|m: nat| #[trigger] x.whole(m) {
        let m = choose|m: nat| #[trigger] x.whole(m) && a == whole_text(x, m);
        let n = choose|n: nat| #[trigger] x.whole(n) && b == whole_text(x, n);
        whole_is_unique(x, m, n);
    }
}

proof fn dimensions_are_determined<F: Fn(&MotionValue) -> String>(
    host: F,
    x: Scalar,
    unit: Seq<char>,
    a: Seq<char>,
    b: Seq<char>,
)
    requires
        single_text(host),
        dimension_written(host, x, unit, a),
        dimension_written(host, x, unit, b),
    ensures
        a == b,
{
    let c = choose|c: Seq<char>| #[trigger] number_written(host, x, c) && a == c + unit;
    let d = choose|d: Seq<char>| #[trigger] number_written(host, x, d) && b == d + unit;
    numbers_are_determined(host, x, c, d);
}

/// A value has one token where the host is consistent.
pub proof fn tokens_are_determined<F: Fn(&MotionValue) -> String>(
    host: F,
    value: Value,
    a: Seq<char>,
    b: Seq<char>,
)
    requires
        single_text(host),
        token_written(host, value, a),
        token_written(host, value, b),
    ensures
        a == b,
{
    match value {
        Value::Number(x) => numbers_are_determined(host, x, a, b),
        Value::Length(l) => dimensions_are_determined(host, l.value, unit_text(l.unit), a, b),
        Value::Angle(t) => dimensions_are_determined(host, t.value, angle_text(t.unit), a, b),
        Value::Length2(l) => {
            let (ax, ay) = choose|x: Seq<char>, y: Seq<char>|
                #![trigger dimension_written(host, l.x.value, unit_text(l.x.unit), x), dimension_written(host, l.y.value, unit_text(l.y.unit), y)]
                dimension_written(host, l.x.value, unit_text(l.x.unit), x) && dimension_written(
                    host,
                    l.y.value,
                    unit_text(l.y.unit),
                    y,
                ) && a == x + " "@ + y;
            let (bx, by) = choose|x: Seq<char>, y: Seq<char>|
                #![trigger dimension_written(host, l.x.value, unit_text(l.x.unit), x), dimension_written(host, l.y.value, unit_text(l.y.unit), y)]
                dimension_written(host, l.x.value, unit_text(l.x.unit), x) && dimension_written(
                    host,
                    l.y.value,
                    unit_text(l.y.unit),
                    y,
                ) && b == x + " "@ + y;
            dimensions_are_determined(host, l.x.value, unit_text(l.x.unit), ax, bx);
            dimensions_are_determined(host, l.y.value, unit_text(l.y.unit), ay, by);
        },
        _ => {},
    }
}

fn number_token<F: Fn(&MotionValue) -> String>(x: Scalar, host: &F) -> (r: String)
    requires
        forall|v: MotionValue| call_requires(*host, (&v,)),
    ensures
        number_written(*host, x, r@),
{
    match x.small_integer() {
        Some(m) => {
            assert(x.whole(m as nat));
            let digits = decimal(m);
            if x.bits >= SIGN {
                joined("-".to_owned(), digits.as_str())
            } else {
                digits
            }
        },
        None => {
            let v = MotionValue::Number(x);
            let s = host(&v);
            assert(call_ensures(*host, (&v,), s));
            s
        },
    }
}

fn dimension_token<F: Fn(&MotionValue) -> String>(x: Scalar, unit: &str, host: &F) -> (r: String)
    requires
        forall|v: MotionValue| call_requires(*host, (&v,)),
    ensures
        dimension_written(*host, x, unit@, r@),
{
    let digits = number_token(x, host);
    let ghost d = digits@;
    let out = joined(digits, unit);
    assert(number_written(*host, x, d));
    out
}

fn unit_name(unit: LengthUnit) -> (r: &'static str)
    ensures
        r@ == unit_text(unit),
{
    match unit {
        LengthUnit::Px => "px",
        LengthUnit::Percent => "%",
        LengthUnit::Rem => "rem",
        LengthUnit::Em => "em",
        LengthUnit::Vw => "vw",
        LengthUnit::Vh => "vh",
    }
}

/// The CSS token of a value. `host` writes fractional numbers, colors, points, rectangles and
/// paths.
pub fn css_token<F: Fn(&MotionValue) -> String>(value: &MotionValue, host: &F) -> (r: String)
    requires
        forall|v: MotionValue| call_requires(*host, (&v,)),
    ensures
        token_written(*host, value@, r@),
{
    match value {
        MotionValue::Number(x) => number_token(*x, host),
        MotionValue::Bool(b) => if *b { "true".to_owned() } else { "false".to_owned() },
        MotionValue::Str(s) => s.clone(),
        MotionValue::Enum(s) => s.clone(),
        MotionValue::Length(l) => dimension_token(l.value, unit_name(l.unit), host),
        MotionValue::Length2(l) => {
            let x = dimension_token(l.x.value, unit_name(l.x.unit), host);
            let y = dimension_token(l.y.value, unit_name(l.y.unit), host);
            let ghost a = x@;
            let ghost b = y@;
            let out = joined(joined(x, " "), y.as_str());
            assert(dimension_written(*host, l.x.value, unit_text(l.x.unit), a));
            assert(dimension_written(*host, l.y.value, unit_text(l.y.unit), b));
            out
        },
        MotionValue::Angle(a) => {
            let unit: &str = match a.unit {
                AngleUnit::Deg => "deg",
                AngleUnit::Rad => "rad",
                AngleUnit::Turn => "turn",
            };
            dimension_token(a.value, unit, host)
        },
        other => {
            let s = host(other);
            assert(call_ensures(*host, (other,), s));
            s
        },
    }
}

/// What a control accepts.
#[derive(Debug)]
pub enum ControlType {
    Number { min: Option<Scalar>, max: Option<Scalar>, step: Option<Scalar> },
    Text,
    NodeTarget,
    Bool,
    Color,
    Length,
    Angle,
    Point,
    Rect,
    PathData,
    Select { options: Vec<String> },
}

/// A declared property of the scene.
#[derive(Debug)]
pub struct PropControl {
    pub control: ControlType,
    pub default: Option<MotionValue>,
    pub required: bool,
}

/// The inputs that a scene declares.
pub struct ControlsSchema {
    pub props: Vec<Entry<PropControl>>,
    pub cues: Vec<Entry<u32>>,
}

impl ControlsSchema {
    /// Props and cues stand in ascending order of their names, none twice.
    pub open spec fn wf(self) -> bool {
        ascending(self.props@) && ascending(self.cues@)
    }
}

impl ControlType {
    /// Whether the control takes values of this kind; a selection takes one of its options.
    pub open spec fn accepts_value(self, value: Value) -> bool {
        match (self, value) {
            (ControlType::Number { .. }, Value::Number(_)) => true,
            (ControlType::Text, Value::Str(_)) => true,
            (ControlType::NodeTarget, Value::Str(_)) => true,
            (ControlType::Bool, Value::Bool(_)) => true,
            (ControlType::Color, Value::Color(_)) => true,
            (ControlType::Length, Value::Length(_)) => true,
            (ControlType::Angle, Value::Angle(_)) => true,
            (ControlType::Point, Value::Point(_)) => true,
            (ControlType::Rect, Value::Rect(_)) => true,
            (ControlType::PathData, Value::PathData(_)) => true,
            (ControlType::Select { options }, Value::Enum(s)) => exists|i: int|
                0 <= i < options@.len() && (#[trigger] options@[i])@ == s,
            _ => false,
        }
    }

    pub fn accepts(&self, value: &MotionValue) -> (r: bool)
        ensures
            r == self.accepts_value(value@),
    {
        match (self, value) {
            (ControlType::Number { .. }, MotionValue::Number(_)) => true,
            (ControlType::Text, MotionValue::Str(_)) => true,
            (ControlType::NodeTarget, MotionValue::Str(_)) => true,
            (ControlType::Bool, MotionValue::Bool(_)) => true,
            (ControlType::Color, MotionValue::Color(_)) => true,
            (ControlType::Length, MotionValue::Length(_)) => true,
            (ControlType::Angle, MotionValue::Angle(_)) => true,
            (ControlType::Point, MotionValue::Point(_)) => true,
            (ControlType::Rect, MotionValue::Rect(_)) => true,
            (ControlType::PathData, MotionValue::PathData(_)) => true,
            (ControlType::Select { options }, MotionValue::Enum(s)) => {
                let mut i: usize = 0;
                while i < options.len()
                    invariant
                        self matches ControlType::Select { options: o } && *o == *options,
                        value@ == Value::Enum(s@),
                        i <= options@.len(),
                        forall|k: int| 0 <= k < i ==> (#[trigger] options@[k])@ != s@,
                    decreases options@.len() - i,
                {
                    if same_text(options[i].as_str(), s.as_str()) {
                        assert(options@[i as int]@ == s@);
                        return true;
                    }
                    i = i + 1;
                }
                false
            },
            _ => false,
        }
    }

    /// Whether a number lies inside the bounds of its control.
    pub open spec fn inside_bounds(self, value: Value) -> bool {
        match (self, value) {
            (ControlType::Number { min, max, .. }, Value::Number(x)) => (min matches Some(low)
                ==> low.le_spec(x)) && (max matches Some(high) ==> x.le_spec(high)),
            _ => true,
        }
    }

    pub fn is_inside_bounds(&self, value: &MotionValue) -> (r: bool)
        ensures
            r == self.inside_bounds(value@),
    {
        match (self, value) {
            (ControlType::Number { min, max, .. }, MotionValue::Number(x)) => {
                let above: bool = match min {
                    Some(low) => low.le(*x),
                    None => true,
                };
                let below: bool = match max {
                    Some(high) => x.le(*high),
                    None => true,
                };
                above && below
            },
            _ => true,
        }
    }
}

} // verus!
