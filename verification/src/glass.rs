//! Glass surfaces and fields: identifiers, bindings and their defaults.

use vstd::prelude::*;

use crate::artifact::{ColorValue, NumberValue, PathValue, PointValue};
use crate::recording::{Point, Rgba};
use crate::scalar::{num, Scalar};
use crate::text::{byte_len, byte_len_is_encoding_len};

verus! {

/// Bit pattern of 0.82.
pub const DEFAULT_CLARITY: u64 = 0x3fea_3d70_a3d7_0a3d;

/// Bit pattern of 0.52.
pub const DEFAULT_DEPTH: u64 = 0x3fe0_a3d7_0a3d_70a4;

/// Bit pattern of 0.60.
pub const DEFAULT_INTENSITY: u64 = 0x3fe3_3333_3333_3333;

/// Bit pattern of 0.32.
pub const DEFAULT_SETTLE_SECONDS: u64 = 0x3fd4_7ae1_47ae_147b;

/// Bit pattern of 1.
pub const DEFAULT_PRESENCE: u64 = 0x3ff0_0000_0000_0000;

/// Bit pattern of 0.65.
pub const DEFAULT_PROTECTION: u64 = 0x3fe4_cccc_cccc_cccd;

/// Bit pattern of 24.
pub const DEFAULT_MERGE_DISTANCE: u64 = 0x4038_0000_0000_0000;

/// Bit pattern of 0.55.
pub const DEFAULT_LIGHT_ELEVATION: u64 = 0x3fe1_9999_9999_999a;

/// Bit pattern of 0.65.
pub const DEFAULT_LIGHT_INTENSITY: u64 = 0x3fe4_cccc_cccc_cccd;

/// Bit pattern of -0.35.
pub const DEFAULT_LIGHT_X: u64 = 0xbfd6_6666_6666_6666;

/// Bit pattern of -0.94.
pub const DEFAULT_LIGHT_Y: u64 = 0xbfee_147a_e147_ae14;

/// Bit pattern of 0.08.
pub const SETTLE_MIN_SECONDS: u64 = 0x3fb4_7ae1_47ae_147b;

/// Bit pattern of 1.2.
pub const SETTLE_MAX_SECONDS: u64 = 0x3ff3_3333_3333_3333;

/// Bit pattern of 1.
pub const MERGE_MIN_DISTANCE: u64 = 0x3ff0_0000_0000_0000;

/// Bit pattern of 128.
pub const MERGE_MAX_DISTANCE: u64 = 0x4060_0000_0000_0000;

/// Bit pattern of the distance from 1 to the next larger number.
pub const LENGTH_EPSILON: u64 = 0x3cb0_0000_0000_0000;

/// Longest identifier, in bytes.
pub const MAX_ID_BYTES: usize = 128;

#[derive(Clone, Copy, Debug, PartialEq, Eq, Structural)]
pub enum GlassIdError {
    Empty,
    TooLong,
}

impl GlassIdError {
    /// What the error reads as.
    pub open spec fn text(self) -> Seq<char> {
        match self {
            GlassIdError::Empty => "Glass id must be a non-empty static string"@,
            GlassIdError::TooLong => "Glass id must be at most 128 bytes"@,
        }
    }

    /// What the error reads as.
    pub fn message(self) -> (r: &'static str)
        ensures
            r@ == self.text(),
    {
        match self {
            GlassIdError::Empty => "Glass id must be a non-empty static string",
            GlassIdError::TooLong => "Glass id must be at most 128 bytes",
        }
    }
}

/// What is wrong with a text as an identifier.
pub open spec fn id_fault(id: Seq<char>) -> Option<GlassIdError> {
    if byte_len(id) == 0 {
        Some(GlassIdError::Empty)
    } else if byte_len(id) > MAX_ID_BYTES {
        Some(GlassIdError::TooLong)
    } else {
        None
    }
}

fn parse_id(id: String) -> (r: Result<String, GlassIdError>)
    ensures
        match r {
            Ok(s) => s == id && id_fault(id@) is None,
            Err(e) => id_fault(id@) == Some(e),
        },
{
    proof {
        byte_len_is_encoding_len(id@);
    }
    let length: usize = id.as_str().as_bytes().len();
    if length == 0 {
        Err(GlassIdError::Empty)
    } else if length > MAX_ID_BYTES {
        Err(GlassIdError::TooLong)
    } else {
        Ok(id)
    }
}

/// Stable glass surface identity inside one artifact: between 1 and 128 bytes.
#[derive(Debug)]
pub struct GlassSurfaceId {
    id: String,
}

impl View for GlassSurfaceId {
    type V = Seq<char>;

    closed spec fn view(&self) -> Seq<char> {
        self.id@
    }
}

impl GlassSurfaceId {
    #[verifier::type_invariant]
    spec fn is_identifier(self) -> bool {
        id_fault(self.id@) is None
    }

    pub fn new(id: String) -> (r: Result<GlassSurfaceId, GlassIdError>)
        ensures
            match r {
                Ok(s) => s@ == id@ && id_fault(id@) is None,
                Err(e) => id_fault(id@) == Some(e),
            },
    {
        match parse_id(id) {
            Ok(id) => Ok(GlassSurfaceId { id }),
            Err(e) => Err(e),
        }
    }

    pub fn as_str(&self) -> (r: &str)
        ensures
            r@ == self@,
            id_fault(r@) is None,
    {
        proof {
            use_type_invariant(self);
        }
        self.id.as_str()
    }
}

/// Stable glass field identity inside one artifact: between 1 and 128 bytes.
#[derive(Debug)]
pub struct GlassFieldId {
    id: String,
}

impl View for GlassFieldId {
    type V = Seq<char>;

    closed spec fn view(&self) -> Seq<char> {
        self.id@
    }
}

impl GlassFieldId {
    #[verifier::type_invariant]
    spec fn is_identifier(self) -> bool {
        id_fault(self.id@) is None
    }

    pub fn new(id: String) -> (r: Result<GlassFieldId, GlassIdError>)
        ensures
            match r {
                Ok(s) => s@ == id@ && id_fault(id@) is None,
                Err(e) => id_fault(id@) == Some(e),
            },
    {
        match parse_id(id) {
            Ok(id) => Ok(GlassFieldId { id }),
            Err(e) => Err(e),
        }
    }

    pub fn as_str(&self) -> (r: &str)
        ensures
            r@ == self@,
            id_fault(r@) is None,
    {
        proof {
            use_type_invariant(self);
        }
        self.id.as_str()
    }

    /// The same identifier.
    pub fn duplicate(&self) -> (r: GlassFieldId)
        ensures
            r@ == self@,
    {
        proof {
            use_type_invariant(self);
        }
        GlassFieldId { id: self.id.clone() }
    }
}

#[derive(Clone, Copy, Debug, PartialEq, Eq, Structural)]
pub enum GlassCharacter {
    Responsive,
    Fluid,
    Viscous,
    Elastic,
}

/// How foreground content is to be told apart from the material. `Absent` asks for no protection.
#[derive(Clone, Copy, Debug, PartialEq, Eq, Structural)]
pub enum GlassForegroundTone {
    Auto,
    Light,
    Dark,
    Absent,
}

#[derive(Clone, Copy, Debug, PartialEq, Eq, Structural)]
pub enum GlassLightSpace {
    Screen,
    World,
}

#[derive(Clone, Copy, Debug, PartialEq, Eq, Structural)]
pub enum GlassUsageProfile {
    Interface,
}

#[derive(Clone, Copy, Debug, PartialEq, Eq, Structural)]
pub enum GlassUsageRole {
    Control,
    Navigation,
    Overlay,
}

#[derive(Clone, Copy, Debug, PartialEq, Eq, Structural)]
pub struct GlassUsage {
    pub profile: GlassUsageProfile,
    pub role: GlassUsageRole,
}

#[derive(Debug)]
pub enum GlassShapeBinding {
    Capsule,
    Circle,
    ContinuousRect { radius: NumberValue },
    Path { path: PathValue, reveal_origin: Option<PointValue> },
}

pub open spec fn fixed(bits: u64) -> NumberValue {
    NumberValue::Static { value: num(bits) }
}

fn fixed_number(bits: u64) -> (r: NumberValue)
    ensures
        r == fixed(bits),
{
    NumberValue::Static { value: Scalar::from_bits(bits) }
}

#[derive(Clone, Copy, Debug, PartialEq, Eq, Structural)]
pub struct GlassMaterialBinding {
    pub clarity: NumberValue,
    pub depth: NumberValue,
    pub tint: ColorValue,
}

impl GlassMaterialBinding {
    pub fn defaults() -> (r: GlassMaterialBinding)
        ensures
            r.clarity == fixed(DEFAULT_CLARITY),
            r.depth == fixed(DEFAULT_DEPTH),
            r.tint == (ColorValue::Static { value: (Rgba { r: 0, g: 0, b: 0, a: 0 }) }),
    {
        GlassMaterialBinding {
            clarity: fixed_number(DEFAULT_CLARITY),
            depth: fixed_number(DEFAULT_DEPTH),
            tint: ColorValue::Static { value: Rgba { r: 0, g: 0, b: 0, a: 0 } },
        }
    }
}

#[derive(Clone, Copy, Debug, PartialEq, Eq, Structural)]
pub struct GlassDriveBinding {
    pub translation: Option<PointValue>,
    pub pressure: Option<NumberValue>,
    pub twist: Option<NumberValue>,
}

impl GlassDriveBinding {
    pub fn none() -> (r: GlassDriveBinding)
        ensures
            r.translation is None,
            r.pressure is None,
            r.twist is None,
    {
        GlassDriveBinding { translation: None, pressure: None, twist: None }
    }
}

#[derive(Clone, Copy, Debug, PartialEq, Eq, Structural)]
pub struct GlassSurfaceMotionBinding {
    pub character: Option<GlassCharacter>,
    pub intensity: NumberValue,
    pub settle: Option<Scalar>,
    pub drive: GlassDriveBinding,
}

pub open spec fn undriven(drive: GlassDriveBinding) -> bool {
    drive.translation is None && drive.pressure is None && drive.twist is None
}

impl GlassSurfaceMotionBinding {
    pub fn independent_defaults() -> (r: GlassSurfaceMotionBinding)
        ensures
            r.character == Some(GlassCharacter::Fluid),
            r.intensity == fixed(DEFAULT_INTENSITY),
            r.settle == Some(num(DEFAULT_SETTLE_SECONDS)),
            undriven(r.drive),
    {
        GlassSurfaceMotionBinding {
            character: Some(GlassCharacter::Fluid),
            intensity: fixed_number(DEFAULT_INTENSITY),
            settle: Some(Scalar::from_bits(DEFAULT_SETTLE_SECONDS)),
            drive: GlassDriveBinding::none(),
        }
    }

    pub fn field_member_defaults() -> (r: GlassSurfaceMotionBinding)
        ensures
            r.character is None,
            r.intensity == fixed(DEFAULT_INTENSITY),
            r.settle is None,
            undriven(r.drive),
    {
        GlassSurfaceMotionBinding {
            character: None,
            intensity: fixed_number(DEFAULT_INTENSITY),
            settle: None,
            drive: GlassDriveBinding::none(),
        }
    }
}

#[derive(Clone, Copy, Debug, PartialEq, Eq, Structural)]
pub struct GlassFieldMotionBinding {
    pub character: GlassCharacter,
    pub intensity: NumberValue,
    pub settle: Scalar,
    pub drive: GlassDriveBinding,
}

impl GlassFieldMotionBinding {
    pub fn defaults() -> (r: GlassFieldMotionBinding)
        ensures
            r.character == GlassCharacter::Fluid,
            r.intensity == fixed(DEFAULT_INTENSITY),
            r.settle == num(DEFAULT_SETTLE_SECONDS),
            undriven(r.drive),
    {
        GlassFieldMotionBinding {
            character: GlassCharacter::Fluid,
            intensity: fixed_number(DEFAULT_INTENSITY),
            settle: Scalar::from_bits(DEFAULT_SETTLE_SECONDS),
            drive: GlassDriveBinding::none(),
        }
    }
}

#[derive(Clone, Copy, Debug, PartialEq, Eq, Structural)]
pub struct GlassForegroundIntent {
    pub tone: GlassForegroundTone,
    pub protection: NumberValue,
}

impl GlassForegroundIntent {
    pub fn defaults() -> (r: GlassForegroundIntent)
        ensures
            r.tone == GlassForegroundTone::Auto,
            r.protection == fixed(DEFAULT_PROTECTION),
    {
        GlassForegroundIntent {
            tone: GlassForegroundTone::Auto,
            protection: fixed_number(DEFAULT_PROTECTION),
        }
    }
}

#[derive(Clone, Copy, Debug, PartialEq, Eq, Structural)]
pub struct GlassLightBinding {
    pub direction: PointValue,
    pub elevation: NumberValue,
    pub intensity: NumberValue,
    pub space: GlassLightSpace,
}

impl GlassLightBinding {
    pub fn defaults() -> (r: GlassLightBinding)
        ensures
            r.direction == (PointValue::Static {
                value: (Point { x: num(DEFAULT_LIGHT_X), y: num(DEFAULT_LIGHT_Y) }),
            }),
            r.elevation == fixed(DEFAULT_LIGHT_ELEVATION),
            r.intensity == fixed(DEFAULT_LIGHT_INTENSITY),
            r.space == GlassLightSpace::Screen,
    {
        GlassLightBinding {
            direction: PointValue::Static {
                value: Point {
                    x: Scalar::from_bits(DEFAULT_LIGHT_X),
                    y: Scalar::from_bits(DEFAULT_LIGHT_Y),
                },
            },
            elevation: fixed_number(DEFAULT_LIGHT_ELEVATION),
            intensity: fixed_number(DEFAULT_LIGHT_INTENSITY),
            space: GlassLightSpace::Screen,
        }
    }
}

#[derive(Clone, Copy, Debug, PartialEq, Eq, Structural)]
pub struct GlassEnvironmentBinding {
    pub light: GlassLightBinding,
}

impl GlassEnvironmentBinding {
    pub fn defaults() -> (r: GlassEnvironmentBinding)
        ensures
            r.light.direction == (PointValue::Static {
                value: (Point { x: num(DEFAULT_LIGHT_X), y: num(DEFAULT_LIGHT_Y) }),
            }),
            r.light.elevation == fixed(DEFAULT_LIGHT_ELEVATION),
            r.light.intensity == fixed(DEFAULT_LIGHT_INTENSITY),
            r.light.space == GlassLightSpace::Screen,
    {
        GlassEnvironmentBinding { light: GlassLightBinding::defaults() }
    }
}

#[derive(Clone, Copy, Debug, PartialEq, Eq, Structural)]
pub struct GlassMergeIntent {
    pub distance: Scalar,
}

impl GlassMergeIntent {
    pub fn defaults() -> (r: GlassMergeIntent)
        ensures
            r.distance == num(DEFAULT_MERGE_DISTANCE),
    {
        GlassMergeIntent { distance: Scalar::from_bits(DEFAULT_MERGE_DISTANCE) }
    }
}

/// An independent surface, or a member of a field. Members inherit material and environment from
/// their field.
#[derive(Debug)]
pub struct GlassNode {
    pub surface_id: GlassSurfaceId,
    pub field_id: Option<GlassFieldId>,
    pub shape: GlassShapeBinding,
    pub material: Option<GlassMaterialBinding>,
    pub environment: Option<GlassEnvironmentBinding>,
    pub motion: GlassSurfaceMotionBinding,
    pub presence: NumberValue,
    pub foreground: GlassForegroundIntent,
}

/// A field: a material shared by its members, no layout box of its own.
#[derive(Debug)]
pub struct GlassFieldNode {
    pub field_id: GlassFieldId,
    pub material: GlassMaterialBinding,
    pub motion: GlassFieldMotionBinding,
    pub merge: GlassMergeIntent,
    pub environment: GlassEnvironmentBinding,
}

} // verus!
