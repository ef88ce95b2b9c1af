//! Which gradients can be recorded, and along which stretch of their axis.

use vstd::prelude::*;

use crate::scalar::{num, Scalar, ONE, ZERO};

verus! {

/// -1.0
pub const MINUS_ONE: u64 = 0xbff0_0000_0000_0000;

/// 90.0
pub const NINETY: u64 = 0x4056_8000_0000_0000;

/// 180.0
pub const HALF_TURN: u64 = 0x4066_8000_0000_0000;

/// 270.0
pub const THREE_QUARTERS: u64 = 0x4070_e000_0000_0000;

/// 360.0
pub const FULL_TURN: u64 = 0x4076_8000_0000_0000;

/// The single-precision number nearest 1e-6.
pub const PERIOD_EPSILON: u64 = 0x3eb0_c6f7_a000_0000;

#[derive(Clone, Copy, Debug, PartialEq, Eq, Structural)]
pub enum HorizontalKeyword {
    Left,
    Right,
    Other,
}

#[derive(Clone, Copy, Debug, PartialEq, Eq, Structural)]
pub enum VerticalKeyword {
    Top,
    Bottom,
    Other,
}

/// Direction of a linear gradient. Angles are reduced to 0..360.
#[derive(Clone, Copy, Debug, PartialEq, Eq, Structural)]
pub enum LinearGradientDirection {
    Angle(Scalar),
    Keyword(Option<HorizontalKeyword>, Option<VerticalKeyword>),
}

/// How the direction vector comes about.
#[derive(Clone, Copy, Debug, PartialEq, Eq, Structural)]
pub enum DirectionStep {
    /// The vector itself.
    Exact(Scalar, Scalar),
    /// `(sin, -cos)` of an angle in degrees.
    Turn(Scalar),
    /// These signs, scaled by the box and normalized.
    Diagonal(Scalar, Scalar),
    Unsupported,
}

/// Cardinal directions are exact; other angles and diagonals need the fixed math kernel.
pub open spec fn direction_step(direction: LinearGradientDirection) -> DirectionStep {
    match direction {
        LinearGradientDirection::Angle(degrees) => if degrees.eq_spec(num(ZERO)) {
            DirectionStep::Exact(num(ZERO), num(MINUS_ONE))
        } else if degrees.eq_spec(num(NINETY)) {
            DirectionStep::Exact(num(ONE), num(ZERO))
        } else if degrees.eq_spec(num(HALF_TURN)) {
            DirectionStep::Exact(num(ZERO), num(ONE))
        } else if degrees.eq_spec(num(THREE_QUARTERS)) {
            DirectionStep::Exact(num(MINUS_ONE), num(ZERO))
        } else {
            DirectionStep::Turn(degrees)
        },
        LinearGradientDirection::Keyword(h, v) => {
            let x = if h == Some(HorizontalKeyword::Left) { num(MINUS_ONE) } else { num(ONE) };
            let y = if v == Some(VerticalKeyword::Top) { num(MINUS_ONE) } else { num(ONE) };
            if h == Some(HorizontalKeyword::Other) || v == Some(VerticalKeyword::Other) {
                DirectionStep::Unsupported
            } else if h is Some && v is Some {
                DirectionStep::Diagonal(x, y)
            } else if h is Some {
                DirectionStep::Exact(x, num(ZERO))
            } else if v is Some {
                DirectionStep::Exact(num(ZERO), y)
            } else {
                DirectionStep::Unsupported
            }
        },
    }
}

/// Decides how a linear gradient's direction vector comes about.
pub fn deterministic_linear_direction(direction: LinearGradientDirection) -> (r: DirectionStep)
    ensures
        r == direction_step(direction),
{
    let zero = Scalar::from_bits(ZERO);
    let one = Scalar::from_bits(ONE);
    let minus = Scalar::from_bits(MINUS_ONE);
    match direction {
        LinearGradientDirection::Angle(degrees) => {
            if degrees.eq_value(zero) {
                DirectionStep::Exact(zero, minus)
            } else if degrees.eq_value(Scalar::from_bits(NINETY)) {
                DirectionStep::Exact(one, zero)
            } else if degrees.eq_value(Scalar::from_bits(HALF_TURN)) {
                DirectionStep::Exact(zero, one)
            } else if degrees.eq_value(Scalar::from_bits(THREE_QUARTERS)) {
                DirectionStep::Exact(minus, zero)
            } else {
                DirectionStep::Turn(degrees)
            }
        },
        LinearGradientDirection::Keyword(h, v) => {
            let x: Option<Scalar> = match h {
                Some(HorizontalKeyword::Left) => Some(minus),
                Some(HorizontalKeyword::Right) => Some(one),
                Some(HorizontalKeyword::Other) => {
                    return DirectionStep::Unsupported;
                },
                None => None,
            };
            let y: Option<Scalar> = match v {
                Some(VerticalKeyword::Top) => Some(minus),
                Some(VerticalKeyword::Bottom) => Some(one),
                Some(VerticalKeyword::Other) => {
                    return DirectionStep::Unsupported;
                },
                None => None,
            };
            match (x, y) {
                (Some(x), Some(y)) => DirectionStep::Diagonal(x, y),
                (Some(x), None) => DirectionStep::Exact(x, zero),
                (None, Some(y)) => DirectionStep::Exact(zero, y),
                (None, None) => DirectionStep::Unsupported,
            }
        },
    }
}

#[derive(Clone, Copy, Debug, PartialEq, Eq, Structural)]
pub enum SpreadMode {
    Pad,
    Repeat,
}

/// Geometry of a background gradient as the style engine resolved it.
#[derive(Clone, Copy, Debug, PartialEq, Eq, Structural)]
pub enum GradientGeometry {
    /// Position of the first stop, distance from it to the last, length of the axis; the direction
    /// is absent where it cannot be drawn, and `stops` counts the resolved stops.
    Linear { drawable: bool, stops: usize, first: Scalar, period: Scalar, axis: Scalar },
    /// Start and length of one period, and the radius scale.
    Radial { start: Scalar, period: Scalar, scale: Scalar },
    /// Start and length of one period, in degrees.
    Conic { start: Scalar, period: Scalar },
    /// No image, or one that is fetched by URL.
    Other,
}

/// The stretch of the axis that the recorded gradient spans.
#[derive(Clone, Copy, Debug, PartialEq, Eq, Structural)]
pub struct GradientAxis {
    pub start: Scalar,
    pub extent: Scalar,
    pub spread: SpreadMode,
}

pub open spec fn spread_of(repeating: bool) -> SpreadMode {
    if repeating { SpreadMode::Repeat } else { SpreadMode::Pad }
}

/// `a` or `b`, whichever is greater; `b` where `a` is a NaN.
pub open spec fn at_least(a: Scalar, b: Scalar) -> Scalar {
    if b.lt_spec(a) { a } else { b }
}

/// A repeating gradient spans its first-to-last period and needs one of positive length; any other
/// spans the whole axis.
pub open spec fn gradient_axis_of(geometry: GradientGeometry, repeating: bool) -> Option<
    GradientAxis,
> {
    let spread = spread_of(repeating);
    match geometry {
        GradientGeometry::Linear { drawable, stops, first, period, axis } => if !drawable || stops
            == 0 {
            None
        } else if !repeating {
            Some(GradientAxis { start: num(ZERO), extent: axis, spread })
        } else if period.le_spec(num(ZERO)) {
            None
        } else {
            Some(GradientAxis { start: first, extent: period, spread })
        },
        GradientGeometry::Radial { start, period, scale } => if !repeating {
            Some(
                GradientAxis {
                    start: num(ZERO),
                    extent: at_least(scale, num(PERIOD_EPSILON)),
                    spread,
                },
            )
        } else if period.le_spec(num(PERIOD_EPSILON)) {
            None
        } else {
            Some(GradientAxis { start, extent: period, spread })
        },
        GradientGeometry::Conic { start, period } => if !repeating {
            Some(GradientAxis { start: num(ZERO), extent: num(FULL_TURN), spread })
        } else if period.le_spec(num(PERIOD_EPSILON)) {
            None
        } else {
            Some(GradientAxis { start, extent: period, spread })
        },
        GradientGeometry::Other => None,
    }
}

/// Decides whether a background gradient can be recorded, and along which stretch of its axis.
pub fn gradient_paint(geometry: GradientGeometry, repeating: bool) -> (r: Option<GradientAxis>)
    ensures
        r == gradient_axis_of(geometry, repeating),
{
    let zero = Scalar::from_bits(ZERO);
    let epsilon = Scalar::from_bits(PERIOD_EPSILON);
    let spread = if repeating { SpreadMode::Repeat } else { SpreadMode::Pad };
    match geometry {
        GradientGeometry::Linear { drawable, stops, first, period, axis } => {
            if !drawable || stops == 0 {
                None
            } else if !repeating {
                Some(GradientAxis { start: zero, extent: axis, spread })
            } else if period.le(zero) {
                None
            } else {
                Some(GradientAxis { start: first, extent: period, spread })
            }
        },
        GradientGeometry::Radial { start, period, scale } => {
            if !repeating {
                let extent = if epsilon.lt(scale) { scale } else { epsilon };
                Some(GradientAxis { start: zero, extent, spread })
            } else if period.le(epsilon) {
                None
            } else {
                Some(GradientAxis { start, extent: period, spread })
            }
        },
        GradientGeometry::Conic { start, period } => {
            if !repeating {
                Some(GradientAxis { start: zero, extent: Scalar::from_bits(FULL_TURN), spread })
            } else if period.le(epsilon) {
                None
            } else {
                Some(GradientAxis { start, extent: period, spread })
            }
        },
        GradientGeometry::Other => None,
    }
}

/// A recorded gradient never has an empty extent, unless its axis already had one.
pub proof fn recorded_extent_is_positive(geometry: GradientGeometry, repeating: bool)
    ensures
        gradient_axis_of(geometry, repeating) matches Some(axis) ==> !axis.extent.le_spec(num(ZERO))
            || (geometry is Linear && !repeating && axis.extent == geometry->axis),
{
}

} // verus!
