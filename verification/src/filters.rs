//! Advanced filters that style sheets cannot express: displacement and velocity blur.

use vstd::prelude::*;

use crate::artifact::{SceneNode, StyleBinding};
use crate::bindings::{resolved_style, styled};
use crate::eval::values_of;
use crate::layout_error::{laid, plain, LayoutError, LayoutFault};
use crate::recording::{FilterOp, Point};
use crate::scalar::{num, whole_is_unique, Scalar, SIGN, ZERO};
use crate::table::same_text;
use crate::text::{begins, begins_with, joined};
use crate::value::{MotionValue, Value};

verus! {

/// Smallest displacement frequency: 0.000001.
pub const MIN_FREQUENCY: u64 = 0x3eb0_c6f7_a0b5_ed8d;

/// Largest displacement frequency: 4.
pub const MAX_FREQUENCY: u64 = 0x4010_0000_0000_0000;

/// Largest displacement: 512.
pub const MAX_DISPLACEMENT: u64 = 0x4080_0000_0000_0000;

/// Largest velocity component, in pixels per frame: 2048.
pub const MAX_VELOCITY: u64 = 0x40a0_0000_0000_0000;

/// Largest shutter angle: 360.
pub const MAX_SHUTTER: u64 = 0x4076_8000_0000_0000;

/// Whether a number is an integer between two bounds.
pub open spec fn counts(x: Scalar, m: nat, low: nat, high: nat) -> bool {
    x.whole(m) && low <= m <= high && (x.bits < SIGN || m == 0)
}

/// The integer that a number is, where it lies between two bounds.
pub fn counted(x: Scalar, low: u64, high: u64) -> (r: Option<u64>)
    ensures
        match r {
            Some(m) => counts(x, m as nat, low as nat, high as nat),
            None => forall|m: nat| !#[trigger] counts(x, m, low as nat, high as nat),
        },
{
    match x.small_integer() {
        Some(m) => {
            if low <= m && m <= high && (x.to_bits() < SIGN || m == 0) {
                Some(m)
            } else {
                proof {
                    assert forall|k: nat| !#[trigger] counts(x, k, low as nat, high as nat) by {
                        if x.whole(k) {
                            whole_is_unique(x, k, m as nat);
                        }
                    }
                }
                None
            }
        },
        None => {
            assert forall|k: nat| !#[trigger] counts(x, k, low as nat, high as nat) by {
                assert(!x.whole(k));
            }
            None
        },
    }
}

pub open spec fn filter_fault<T>(node: SceneNode, reason: Seq<char>) -> Result<T, LayoutFault> {
    Err(LayoutFault::BadStyle(node.key@, "Motion advanced filter"@, reason))
}

fn bad_advanced_filter(node: &SceneNode, reason: String) -> (r: LayoutError)
    ensures
        r@ == LayoutFault::BadStyle(node.key@, "Motion advanced filter"@, reason@),
{
    LayoutError::BadStyle {
        node: node.key.clone(),
        declarations: "Motion advanced filter".to_owned(),
        reason,
    }
}

/// Whether one of the first `n` styles belongs to a group.
pub open spec fn has_group(styles: Seq<StyleBinding>, prefix: Seq<char>) -> bool {
    exists|i: int| 0 <= i < styles.len() && begins((#[trigger] styles[i]).property@, prefix)
}

fn in_group(styles: &Vec<StyleBinding>, prefix: &str) -> (r: bool)
    ensures
        r == has_group(styles@, prefix@),
{
    let mut i: usize = 0;
    while i < styles.len()
        invariant
            i <= styles@.len(),
            forall|k: int| 0 <= k < i ==> !begins((#[trigger] styles@[k]).property@, prefix@),
        decreases styles@.len() - i,
    {
        if begins_with(styles[i].property.as_str(), prefix) {
            assert(begins(styles@[i as int].property@, prefix@));
            return true;
        }
        i = i + 1;
    }
    false
}

/// A number style of a group; `reason` says what is wrong where it is none.
pub open spec fn number_style(
    node: SceneNode,
    values: Seq<Value>,
    at: int,
    property: Seq<char>,
    reason: Seq<char>,
) -> Result<Scalar, LayoutFault> {
    match styled(node.styles@, values, at, property) {
        Err(f) => Err(f),
        Ok(Some(Value::Number(x))) => Ok(x),
        Ok(_) => filter_fault(node, reason),
    }
}

pub open spec fn point_style(
    node: SceneNode,
    values: Seq<Value>,
    at: int,
    property: Seq<char>,
    reason: Seq<char>,
) -> Result<Point, LayoutFault> {
    match styled(node.styles@, values, at, property) {
        Err(f) => Err(f),
        Ok(Some(Value::Point(p))) => Ok(p),
        Ok(_) => filter_fault(node, reason),
    }
}

pub open spec fn enum_style(
    node: SceneNode,
    values: Seq<Value>,
    at: int,
    property: Seq<char>,
    reason: Seq<char>,
) -> Result<Seq<char>, LayoutFault> {
    match styled(node.styles@, values, at, property) {
        Err(f) => Err(f),
        Ok(Some(Value::Enum(s))) => Ok(s),
        Ok(_) => filter_fault(node, reason),
    }
}

fn read_number(
    node: &SceneNode,
    values: &Vec<MotionValue>,
    at: usize,
    property: &str,
    reason: String,
) -> (r: Result<Scalar, LayoutError>)
    ensures
        plain(r) == number_style(*node, values_of(values@), at as int, property@, reason@),
{
    match resolved_style(node, values, at, property) {
        Err(e) => Err(e),
        Ok(Some(MotionValue::Number(x))) => Ok(*x),
        Ok(_) => Err(bad_advanced_filter(node, reason)),
    }
}

fn read_point(
    node: &SceneNode,
    values: &Vec<MotionValue>,
    at: usize,
    property: &str,
    reason: String,
) -> (r: Result<Point, LayoutError>)
    ensures
        plain(r) == point_style(*node, values_of(values@), at as int, property@, reason@),
{
    match resolved_style(node, values, at, property) {
        Err(e) => Err(e),
        Ok(Some(MotionValue::Point(p))) => Ok(*p),
        Ok(_) => Err(bad_advanced_filter(node, reason)),
    }
}

fn read_enum(
    node: &SceneNode,
    values: &Vec<MotionValue>,
    at: usize,
    property: &str,
    reason: String,
) -> (r: Result<String, LayoutError>)
    ensures
        laid(r) == enum_style(*node, values_of(values@), at as int, property@, reason@),
{
    match resolved_style(node, values, at, property) {
        Err(e) => Err(e),
        Ok(Some(MotionValue::Enum(s))) => Ok(s.clone()),
        Ok(_) => Err(bad_advanced_filter(node, reason)),
    }
}

/// The parameters of a displacement.
pub struct Displacement {
    pub seed: Scalar,
    pub frequency: Point,
    pub scale: Scalar,
    pub octaves: Scalar,
    pub turbulence: bool,
    /// Whether the mode is one that exists.
    pub known_mode: bool,
}

/// What the styles of a group say of a displacement. `what` names it in messages.
pub open spec fn displacement_read(
    node: SceneNode,
    values: Seq<Value>,
    at: int,
    prefix: Seq<char>,
    what: Seq<char>,
) -> Result<Displacement, LayoutFault> {
    match number_style(
        node,
        values,
        at,
        prefix + "seed"@,
        what + " seed is missing or is not a number"@,
    ) {
        Err(f) => Err(f),
        Ok(seed) => match point_style(
            node,
            values,
            at,
            prefix + "frequency"@,
            what + " frequency must be point(x, y)"@,
        ) {
            Err(f) => Err(f),
            Ok(frequency) => match number_style(
                node,
                values,
                at,
                prefix + "scale"@,
                what + " scale must be a number"@,
            ) {
                Err(f) => Err(f),
                Ok(scale) => match number_style(
                    node,
                    values,
                    at,
                    prefix + "octaves"@,
                    what + " octaves must be a number"@,
                ) {
                    Err(f) => Err(f),
                    Ok(octaves) => match enum_style(
                        node,
                        values,
                        at,
                        prefix + "mode"@,
                        what + " mode must be an enum"@,
                    ) {
                        Err(f) => Err(f),
                        Ok(mode) => Ok(
                            Displacement {
                                seed,
                                frequency,
                                scale,
                                octaves,
                                turbulence: mode == "turbulence"@,
                                known_mode: mode == "fractal"@ || mode == "turbulence"@,
                            },
                        ),
                    },
                },
            },
        },
    }
}

fn read_displacement(
    node: &SceneNode,
    values: &Vec<MotionValue>,
    at: usize,
    prefix: &str,
    what: &str,
) -> (r: Result<Displacement, LayoutError>)
    ensures
        plain(r) == displacement_read(*node, values_of(values@), at as int, prefix@, what@),
{
    let seed = match read_number(
        node,
        values,
        at,
        joined(prefix.to_owned(), "seed").as_str(),
        joined(what.to_owned(), " seed is missing or is not a number"),
    ) {
        Ok(v) => v,
        Err(e) => {
            return Err(e);
        },
    };
    let frequency = match read_point(
        node,
        values,
        at,
        joined(prefix.to_owned(), "frequency").as_str(),
        joined(what.to_owned(), " frequency must be point(x, y)"),
    ) {
        Ok(v) => v,
        Err(e) => {
            return Err(e);
        },
    };
    let scale = match read_number(
        node,
        values,
        at,
        joined(prefix.to_owned(), "scale").as_str(),
        joined(what.to_owned(), " scale must be a number"),
    ) {
        Ok(v) => v,
        Err(e) => {
            return Err(e);
        },
    };
    let octaves = match read_number(
        node,
        values,
        at,
        joined(prefix.to_owned(), "octaves").as_str(),
        joined(what.to_owned(), " octaves must be a number"),
    ) {
        Ok(v) => v,
        Err(e) => {
            return Err(e);
        },
    };
    let mode = match read_enum(
        node,
        values,
        at,
        joined(prefix.to_owned(), "mode").as_str(),
        joined(what.to_owned(), " mode must be an enum"),
    ) {
        Ok(v) => v,
        Err(e) => {
            return Err(e);
        },
    };
    let turbulence: bool = same_text(mode.as_str(), "turbulence");
    let known_mode: bool = same_text(mode.as_str(), "fractal") || turbulence;
    Ok(Displacement { seed, frequency, scale, octaves, turbulence, known_mode })
}

/// Whether a displacement, its seed apart, lies inside its limits.
pub open spec fn displacement_fits(d: Displacement) -> bool {
    &&& d.frequency.x.within(num(MIN_FREQUENCY), num(MAX_FREQUENCY))
    &&& d.frequency.y.within(num(MIN_FREQUENCY), num(MAX_FREQUENCY))
    &&& d.scale.finite()
    &&& !num(MAX_DISPLACEMENT).lt_spec(d.scale.abs_spec())
    &&& exists|m: nat| #[trigger] counts(d.octaves, m, 1, 4)
    &&& d.known_mode
}

pub open spec fn seed_fits(d: Displacement) -> bool {
    exists|m: nat| #[trigger] counts(d.seed, m, 0, u32::MAX as nat)
}

/// Whether a filter is the displacement that its parameters describe.
pub open spec fn displaces(d: Displacement, op: FilterOp) -> bool {
    op matches FilterOp::NoiseDisplacement {
        frequency_x,
        frequency_y,
        octaves,
        seed,
        scale,
        turbulence,
    } && frequency_x == d.frequency.x && frequency_y == d.frequency.y && counts(
        d.octaves,
        octaves as nat,
        1,
        4,
    ) && counts(d.seed, seed as nat, 0, u32::MAX as nat) && scale == d.scale && turbulence
        == d.turbulence
}

fn in_limits(d: &Displacement) -> (r: Option<u8>)
    ensures
        match r {
            Some(octaves) => displacement_fits(*d) && counts(d.octaves, octaves as nat, 1, 4),
            None => !displacement_fits(*d),
        },
{
    let low = Scalar::from_bits(MIN_FREQUENCY);
    let high = Scalar::from_bits(MAX_FREQUENCY);
    let octaves: u64 = match counted(d.octaves, 1, 4) {
        Some(m) => m,
        None => {
            return None;
        },
    };
    if !d.frequency.x.in_range(low, high) || !d.frequency.y.in_range(low, high)
        || !d.scale.is_finite() || Scalar::from_bits(MAX_DISPLACEMENT).lt(d.scale.abs())
        || !d.known_mode {
        return None;
    }
    Some(octaves as u8)
}

/// Whether `r` is what the displacement styles of a node give.
pub open spec fn displacement_given(
    node: SceneNode,
    values: Seq<Value>,
    at: int,
    r: Result<FilterOp, LayoutFault>,
) -> bool {
    match displacement_read(node, values, at, "motion-displacement-"@, "displacement"@) {
        Err(f) => r == Err::<FilterOp, LayoutFault>(f),
        Ok(d) => if !seed_fits(d) {
            r == filter_fault::<FilterOp>(
                node,
                "displacement seed must be a finite integer in 0..=4294967295 this frame; the engine does not round, clamp, wrap, or reuse the previous seed"@,
            )
        } else if !displacement_fits(d) {
            r == filter_fault::<FilterOp>(
                node,
                "displacement requires frequency 0.000001..=4, |scale| <= 512, octaves 1..=4, and a valid mode"@,
            )
        } else {
            r matches Ok(op) && displaces(d, op)
        },
    }
}

fn displacement(node: &SceneNode, values: &Vec<MotionValue>, at: usize) -> (r: Result<
    FilterOp,
    LayoutError,
>)
    ensures
        displacement_given(*node, values_of(values@), at as int, plain(r)),
{
    let d = match read_displacement(node, values, at, "motion-displacement-", "displacement") {
        Ok(d) => d,
        Err(e) => {
            return Err(e);
        },
    };
    let seed: u64 = match counted(d.seed, 0, u32::MAX as u64) {
        Some(m) => m,
        None => {
            return Err(
                bad_advanced_filter(
                    node,
                    "displacement seed must be a finite integer in 0..=4294967295 this frame; the engine does not round, clamp, wrap, or reuse the previous seed".to_owned(),
                ),
            );
        },
    };
    assert(counts(d.seed, seed as nat, 0, u32::MAX as nat));
    match in_limits(&d) {
        None => Err(
            bad_advanced_filter(
                node,
                "displacement requires frequency 0.000001..=4, |scale| <= 512, octaves 1..=4, and a valid mode".to_owned(),
            ),
        ),
        Some(octaves) => Ok(
            FilterOp::NoiseDisplacement {
                frequency_x: d.frequency.x,
                frequency_y: d.frequency.y,
                octaves,
                seed: seed as u32,
                scale: d.scale,
                turbulence: d.turbulence,
            },
        ),
    }
}

pub open spec fn velocity_fits(velocity: Point, shutter: Scalar) -> bool {
    velocity.x.finite() && velocity.y.finite() && !num(MAX_VELOCITY).lt_spec(velocity.x.abs_spec())
        && !num(MAX_VELOCITY).lt_spec(velocity.y.abs_spec()) && shutter.finite() && shutter.within(
        num(ZERO),
        num(MAX_SHUTTER),
    )
}

/// What the velocity-blur styles of a node give.
pub open spec fn blur_given(node: SceneNode, values: Seq<Value>, at: int) -> Result<
    FilterOp,
    LayoutFault,
> {
    match point_style(
        node,
        values,
        at,
        "motion-velocity-blur-velocity"@,
        "motion blur velocity is missing or is not point(x, y)"@,
    ) {
        Err(f) => Err(f),
        Ok(velocity) => match number_style(
            node,
            values,
            at,
            "motion-velocity-blur-shutter"@,
            "motion blur shutter angle must be a number"@,
        ) {
            Err(f) => Err(f),
            Ok(shutter) => if velocity_fits(velocity, shutter) {
                Ok(
                    FilterOp::VelocityBlur {
                        velocity_x: velocity.x,
                        velocity_y: velocity.y,
                        shutter_angle: shutter,
                    },
                )
            } else {
                filter_fault(
                    node,
                    "motion blur requires velocity components within \u{b1}2048 px/frame and shutterAngle 0..=360"@,
                )
            },
        },
    }
}

fn velocity_blur(node: &SceneNode, values: &Vec<MotionValue>, at: usize) -> (r: Result<
    FilterOp,
    LayoutError,
>)
    ensures
        plain(r) == blur_given(*node, values_of(values@), at as int),
{
    let velocity = match read_point(
        node,
        values,
        at,
        "motion-velocity-blur-velocity",
        "motion blur velocity is missing or is not point(x, y)".to_owned(),
    ) {
        Ok(v) => v,
        Err(e) => {
            return Err(e);
        },
    };
    let shutter = match read_number(
        node,
        values,
        at,
        "motion-velocity-blur-shutter",
        "motion blur shutter angle must be a number".to_owned(),
    ) {
        Ok(v) => v,
        Err(e) => {
            return Err(e);
        },
    };
    let most = Scalar::from_bits(MAX_VELOCITY);
    if !velocity.x.is_finite() || !velocity.y.is_finite() || most.lt(velocity.x.abs()) || most.lt(
        velocity.y.abs(),
    ) || !shutter.is_finite() || !shutter.in_range(
        Scalar::from_bits(ZERO),
        Scalar::from_bits(MAX_SHUTTER),
    ) {
        return Err(
            bad_advanced_filter(
                node,
                "motion blur requires velocity components within \u{b1}2048 px/frame and shutterAngle 0..=360".to_owned(),
            ),
        );
    }
    Ok(
        FilterOp::VelocityBlur {
            velocity_x: velocity.x,
            velocity_y: velocity.y,
            shutter_angle: shutter,
        },
    )
}

/// Whether `r` is the advanced filters of a node: a displacement, then a velocity blur, each where
/// its styles occur.
pub open spec fn filters_given(
    node: SceneNode,
    values: Seq<Value>,
    at: int,
    r: Result<Seq<FilterOp>, LayoutFault>,
) -> bool {
    if has_group(node.styles@, "motion-displacement-"@) {
        exists|first: Result<FilterOp, LayoutFault>| #[trigger]
            displacement_given(node, values, at, first) && match first {
                Err(f) => r == Err::<Seq<FilterOp>, LayoutFault>(f),
                Ok(op) => r == filters_then(node, values, at, seq![op]),
            }
    } else {
        r == filters_then(node, values, at, Seq::empty())
    }
}

/// Filters followed by a velocity blur, where its styles occur.
pub open spec fn filters_then(
    node: SceneNode,
    values: Seq<Value>,
    at: int,
    before: Seq<FilterOp>,
) -> Result<Seq<FilterOp>, LayoutFault> {
    if has_group(node.styles@, "motion-velocity-blur-"@) {
        match blur_given(node, values, at) {
            Err(f) => Err(f),
            Ok(op) => Ok(before.push(op)),
        }
    } else {
        Ok(before)
    }
}

/// The advanced filters of a node this frame.
pub fn resolve_advanced_filters(node: &SceneNode, values: &Vec<MotionValue>, at: usize) -> (r: Result<
    Vec<FilterOp>,
    LayoutError,
>)
    ensures
        filters_given(*node, values_of(values@), at as int, laid(r)),
{
    let mut filters: Vec<FilterOp> = Vec::new();
    let ghost mut first: Result<FilterOp, LayoutFault> = Err(LayoutFault::BadViewport);
    if in_group(&node.styles, "motion-displacement-") {
        let out = displacement(node, values, at);
        proof {
            first = plain(out);
            assert(displacement_given(*node, values_of(values@), at as int, first));
        }
        match out {
            Ok(op) => {
                filters.push(op);
                assert(filters@ =~= seq![op]);
            },
            Err(e) => {
                return Err(e);
            },
        }
    } else {
        assert(filters@ =~= Seq::<FilterOp>::empty());
    }
    if in_group(&node.styles, "motion-velocity-blur-") {
        match velocity_blur(node, values, at) {
            Ok(op) => {
                filters.push(op);
            },
            Err(e) => {
                return Err(e);
            },
        }
    }
    Ok(filters)
}

/// Whether `r` is the filters that a node applies to what lies behind it.
pub open spec fn backdrop_given(
    node: SceneNode,
    values: Seq<Value>,
    at: int,
    r: Result<Seq<FilterOp>, LayoutFault>,
) -> bool {
    if has_group(node.styles@, "motion-backdrop-displacement-"@) {
        match displacement_read(
            node,
            values,
            at,
            "motion-backdrop-displacement-"@,
            "backdrop displacement"@,
        ) {
            Err(f) => r == Err::<Seq<FilterOp>, LayoutFault>(f),
            Ok(d) => if seed_fits(d) && displacement_fits(d) {
                r matches Ok(ops) && ops.len() == 1 && displaces(d, ops[0])
            } else {
                r == filter_fault::<Seq<FilterOp>>(
                    node,
                    "backdrop displacement requires a finite u32 seed, frequency 0.000001..=4, |scale| <= 512, octaves 1..=4, and a valid mode"@,
                )
            },
        }
    } else {
        r == Ok::<Seq<FilterOp>, LayoutFault>(Seq::empty())
    }
}

/// The filters that a node applies to what lies behind it.
pub fn resolve_backdrop_advanced_filters(
    node: &SceneNode,
    values: &Vec<MotionValue>,
    at: usize,
) -> (r: Result<Vec<FilterOp>, LayoutError>)
    ensures
        backdrop_given(*node, values_of(values@), at as int, laid(r)),
{
    let mut filters: Vec<FilterOp> = Vec::new();
    if !in_group(&node.styles, "motion-backdrop-displacement-") {
        assert(filters@ =~= Seq::<FilterOp>::empty());
        return Ok(filters);
    }
    let d = match read_displacement(
        node,
        values,
        at,
        "motion-backdrop-displacement-",
        "backdrop displacement",
    ) {
        Ok(d) => d,
        Err(e) => {
            return Err(e);
        },
    };
    let seed: Option<u64> = counted(d.seed, 0, u32::MAX as u64);
    match (seed, in_limits(&d)) {
        (Some(seed), Some(octaves)) => {
            assert(counts(d.seed, seed as nat, 0, u32::MAX as nat));
            filters.push(
                FilterOp::NoiseDisplacement {
                    frequency_x: d.frequency.x,
                    frequency_y: d.frequency.y,
                    octaves,
                    seed: seed as u32,
                    scale: d.scale,
                    turbulence: d.turbulence,
                },
            );
            Ok(filters)
        },
        _ => Err(
            bad_advanced_filter(
                node,
                "backdrop displacement requires a finite u32 seed, frequency 0.000001..=4, |scale| <= 512, octaves 1..=4, and a valid mode".to_owned(),
            ),
        ),
    }
}

} // verus!
