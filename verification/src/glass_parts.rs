//! The glass bindings of a frame: material, light, drive and motion.

use vstd::prelude::*;

use crate::artifact::SceneArtifact;
use crate::bindings::{
    color_bound, color_value, number_bound, number_value, point_bound, point_value,
};
use crate::eval::values_of;
use crate::glass::{
    GlassCharacter, GlassDriveBinding, GlassEnvironmentBinding, GlassFieldMotionBinding,
    GlassForegroundTone, GlassLightSpace, GlassMaterialBinding, GlassSurfaceMotionBinding,
    DEFAULT_SETTLE_SECONDS,
};
use crate::layout_error::{plain, LayoutError, LayoutFault};
use crate::lineage::names;
use crate::recording::{Affine, Homography, Point, Rect, Rgba};
use crate::scalar::{num, Scalar, ONE, ZERO};
use crate::table::{find, lookup, Entry};
use crate::value::{MotionValue, Value};

verus! {

#[derive(Clone, Copy, Debug, PartialEq, Eq, Structural)]
pub struct GlassLayoutMaterial {
    pub clarity: Scalar,
    pub depth: Scalar,
    pub tint: Rgba,
}

/// What drives a surface: a translation, a pressure and a twist.
#[derive(Clone, Copy, Debug, PartialEq, Eq, Structural)]
pub struct GlassDrive {
    pub x: Scalar,
    pub y: Scalar,
    pub pressure: Scalar,
    pub twist: Scalar,
}

#[derive(Clone, Copy, Debug, PartialEq, Eq, Structural)]
pub struct GlassLayoutMotion {
    pub character: GlassCharacter,
    pub settle_seconds: Scalar,
    pub intensity: Scalar,
    pub drive: GlassDrive,
}

#[derive(Clone, Copy, Debug, PartialEq, Eq, Structural)]
pub struct GlassLayoutEnvironment {
    pub light_direction: Point,
    pub light_elevation: Scalar,
    pub light_intensity: Scalar,
    pub light_space: GlassLightSpace,
}

/// How the foreground of a surface is protected. No bounds: nothing paints in front of it.
#[derive(Clone, Copy, Debug)]
pub struct GlassLayoutForeground {
    pub tone: GlassForegroundTone,
    pub protection: Scalar,
    pub bounds: Option<Rect>,
    pub luma: Option<Scalar>,
}

/// Arithmetic that the host does.
pub enum GlassSum {
    /// The product of two numbers.
    Product { a: Scalar, b: Scalar },
    /// The sum of two numbers.
    Total { a: Scalar, b: Scalar },
    /// The product of two intensities, over the default intensity.
    Relative { field: Scalar, member: Scalar },
    /// A number rounded to single precision.
    Single { x: Scalar },
}

pub open spec fn material_bound(m: GlassMaterialBinding, values: Seq<Value>, at: int) -> Result<
    GlassLayoutMaterial,
    LayoutFault,
> {
    match number_bound(m.clarity, values, at, "glass material clarity"@) {
        Err(f) => Err(f),
        Ok(clarity) => match number_bound(m.depth, values, at, "glass material depth"@) {
            Err(f) => Err(f),
            Ok(depth) => match color_bound(m.tint, values, at) {
                Err(f) => Err(f),
                Ok(tint) => Ok(GlassLayoutMaterial { clarity, depth, tint }),
            },
        },
    }
}

pub fn glass_material(m: &GlassMaterialBinding, values: &Vec<MotionValue>, at: usize) -> (r: Result<
    GlassLayoutMaterial,
    LayoutError,
>)
    ensures
        plain(r) == material_bound(*m, values_of(values@), at as int),
{
    let clarity = match number_value(m.clarity, values, at, "glass material clarity") {
        Ok(v) => v,
        Err(e) => {
            return Err(e);
        },
    };
    let depth = match number_value(m.depth, values, at, "glass material depth") {
        Ok(v) => v,
        Err(e) => {
            return Err(e);
        },
    };
    match color_value(m.tint, values, at) {
        Ok(tint) => Ok(GlassLayoutMaterial { clarity, depth, tint }),
        Err(e) => Err(e),
    }
}

pub open spec fn drive_bound(d: GlassDriveBinding, values: Seq<Value>, at: int) -> Result<
    GlassDrive,
    LayoutFault,
> {
    let translation = match d.translation {
        Some(b) => point_bound(b, values, at, "glass drive translation"@),
        None => Ok(Point { x: num(ZERO), y: num(ZERO) }),
    };
    let pressure = match d.pressure {
        Some(b) => number_bound(b, values, at, "glass drive pressure"@),
        None => Ok(num(ZERO)),
    };
    let twist = match d.twist {
        Some(b) => number_bound(b, values, at, "glass drive twist"@),
        None => Ok(num(ZERO)),
    };
    match translation {
        Err(f) => Err(f),
        Ok(t) => match pressure {
            Err(f) => Err(f),
            Ok(pressure) => match twist {
                Err(f) => Err(f),
                Ok(twist) => Ok(GlassDrive { x: t.x, y: t.y, pressure, twist }),
            },
        },
    }
}

pub fn glass_drive(d: &GlassDriveBinding, values: &Vec<MotionValue>, at: usize) -> (r: Result<
    GlassDrive,
    LayoutError,
>)
    ensures
        plain(r) == drive_bound(*d, values_of(values@), at as int),
{
    let zero = Scalar::from_bits(ZERO);
    let t = match d.translation {
        Some(b) => match point_value(b, values, at, "glass drive translation") {
            Ok(v) => v,
            Err(e) => {
                return Err(e);
            },
        },
        None => Point { x: zero, y: zero },
    };
    let pressure = match d.pressure {
        Some(b) => match number_value(b, values, at, "glass drive pressure") {
            Ok(v) => v,
            Err(e) => {
                return Err(e);
            },
        },
        None => zero,
    };
    let twist = match d.twist {
        Some(b) => match number_value(b, values, at, "glass drive twist") {
            Ok(v) => v,
            Err(e) => {
                return Err(e);
            },
        },
        None => zero,
    };
    Ok(GlassDrive { x: t.x, y: t.y, pressure, twist })
}

pub open spec fn environment_bound(e: GlassEnvironmentBinding, values: Seq<Value>, at: int) -> Result<
    GlassLayoutEnvironment,
    LayoutFault,
> {
    match point_bound(e.light.direction, values, at, "glass light direction"@) {
        Err(f) => Err(f),
        Ok(light_direction) => match number_bound(
            e.light.elevation,
            values,
            at,
            "glass light elevation"@,
        ) {
            Err(f) => Err(f),
            Ok(light_elevation) => match number_bound(
                e.light.intensity,
                values,
                at,
                "glass light intensity"@,
            ) {
                Err(f) => Err(f),
                Ok(light_intensity) => Ok(
                    GlassLayoutEnvironment {
                        light_direction,
                        light_elevation,
                        light_intensity,
                        light_space: e.light.space,
                    },
                ),
            },
        },
    }
}

pub fn glass_environment(e: &GlassEnvironmentBinding, values: &Vec<MotionValue>, at: usize) -> (r:
    Result<GlassLayoutEnvironment, LayoutError>)
    ensures
        plain(r) == environment_bound(*e, values_of(values@), at as int),
{
    let light_direction = match point_value(
        e.light.direction,
        values,
        at,
        "glass light direction",
    ) {
        Ok(v) => v,
        Err(e) => {
            return Err(e);
        },
    };
    let light_elevation = match number_value(
        e.light.elevation,
        values,
        at,
        "glass light elevation",
    ) {
        Ok(v) => v,
        Err(e) => {
            return Err(e);
        },
    };
    match number_value(e.light.intensity, values, at, "glass light intensity") {
        Ok(light_intensity) => Ok(
            GlassLayoutEnvironment {
                light_direction,
                light_elevation,
                light_intensity,
                light_space: e.light.space,
            },
        ),
        Err(e) => Err(e),
    }
}

pub open spec fn field_motion_bound(m: GlassFieldMotionBinding, values: Seq<Value>, at: int) -> Result<
    GlassLayoutMotion,
    LayoutFault,
> {
    match number_bound(m.intensity, values, at, "glass field intensity"@) {
        Err(f) => Err(f),
        Ok(intensity) => match drive_bound(m.drive, values, at) {
            Err(f) => Err(f),
            Ok(drive) => Ok(
                GlassLayoutMotion {
                    character: m.character,
                    settle_seconds: m.settle,
                    intensity,
                    drive,
                },
            ),
        },
    }
}

pub fn glass_field_motion(m: &GlassFieldMotionBinding, values: &Vec<MotionValue>, at: usize) -> (r:
    Result<GlassLayoutMotion, LayoutError>)
    ensures
        plain(r) == field_motion_bound(*m, values_of(values@), at as int),
{
    let intensity = match number_value(m.intensity, values, at, "glass field intensity") {
        Ok(v) => v,
        Err(e) => {
            return Err(e);
        },
    };
    match glass_drive(&m.drive, values, at) {
        Ok(drive) => Ok(
            GlassLayoutMotion {
                character: m.character,
                settle_seconds: m.settle,
                intensity,
                drive,
            },
        ),
        Err(e) => Err(e),
    }
}

/// Whether a motion is that of a member in its field: character and settling are the field's,
/// intensities multiply and stay within 0 and 1, drives add up.
pub open spec fn joined_motion<N: Fn(&GlassSum) -> Scalar>(
    sums: N,
    field: GlassLayoutMotion,
    intensity: Scalar,
    drive: GlassDrive,
    r: GlassLayoutMotion,
) -> bool {
    &&& r.character == field.character
    &&& r.settle_seconds == field.settle_seconds
    &&& exists|q: Scalar| #[trigger]
        call_ensures(
            sums,
            (&GlassSum::Relative { field: field.intensity, member: intensity },),
            q,
        ) && r.intensity == q.clamp_spec(num(ZERO), num(ONE))
    &&& call_ensures(sums, (&GlassSum::Total { a: field.drive.x, b: drive.x },), r.drive.x)
    &&& call_ensures(sums, (&GlassSum::Total { a: field.drive.y, b: drive.y },), r.drive.y)
    &&& call_ensures(
        sums,
        (&GlassSum::Total { a: field.drive.pressure, b: drive.pressure },),
        r.drive.pressure,
    )
    &&& call_ensures(
        sums,
        (&GlassSum::Total { a: field.drive.twist, b: drive.twist },),
        r.drive.twist,
    )
}

/// The motion of a surface on its own.
pub open spec fn own_motion(
    m: GlassSurfaceMotionBinding,
    intensity: Scalar,
    drive: GlassDrive,
) -> GlassLayoutMotion {
    GlassLayoutMotion {
        character: match m.character {
            Some(c) => c,
            None => GlassCharacter::Fluid,
        },
        settle_seconds: match m.settle {
            Some(s) => s,
            None => num(DEFAULT_SETTLE_SECONDS),
        },
        intensity,
        drive,
    }
}

/// Whether `r` is the motion of a surface, given that of its field where it has one.
pub open spec fn motion_given<N: Fn(&GlassSum) -> Scalar>(
    sums: N,
    field: Option<GlassLayoutMotion>,
    m: GlassSurfaceMotionBinding,
    values: Seq<Value>,
    at: int,
    r: Result<GlassLayoutMotion, LayoutFault>,
) -> bool {
    match number_bound(m.intensity, values, at, "glass member intensity"@) {
        Err(f) => r == Err::<GlassLayoutMotion, LayoutFault>(f),
        Ok(intensity) => match drive_bound(m.drive, values, at) {
            Err(f) => r == Err::<GlassLayoutMotion, LayoutFault>(f),
            Ok(drive) => match field {
                Some(field) => r matches Ok(o) && joined_motion(sums, field, intensity, drive, o),
                None => r == Ok::<GlassLayoutMotion, LayoutFault>(own_motion(m, intensity, drive)),
            },
        },
    }
}

pub fn glass_motion<N: Fn(&GlassSum) -> Scalar>(
    sums: &N,
    field: Option<GlassLayoutMotion>,
    m: &GlassSurfaceMotionBinding,
    values: &Vec<MotionValue>,
    at: usize,
) -> (r: Result<GlassLayoutMotion, LayoutError>)
    requires
        forall|s: GlassSum| call_requires(*sums, (&s,)),
    ensures
        motion_given(*sums, field, *m, values_of(values@), at as int, plain(r)),
{
    let intensity = match number_value(m.intensity, values, at, "glass member intensity") {
        Ok(v) => v,
        Err(e) => {
            return Err(e);
        },
    };
    let drive = match glass_drive(&m.drive, values, at) {
        Ok(v) => v,
        Err(e) => {
            return Err(e);
        },
    };
    match field {
        None => Ok(
            GlassLayoutMotion {
                character: match m.character {
                    Some(c) => c,
                    None => GlassCharacter::Fluid,
                },
                settle_seconds: match m.settle {
                    Some(s) => s,
                    None => Scalar::from_bits(DEFAULT_SETTLE_SECONDS),
                },
                intensity,
                drive,
            },
        ),
        Some(field) => {
            let q = sums(&GlassSum::Relative { field: field.intensity, member: intensity });
            let x = sums(&GlassSum::Total { a: field.drive.x, b: drive.x });
            let y = sums(&GlassSum::Total { a: field.drive.y, b: drive.y });
            let pressure = sums(
                &GlassSum::Total { a: field.drive.pressure, b: drive.pressure },
            );
            let twist = sums(&GlassSum::Total { a: field.drive.twist, b: drive.twist });
            Ok(
                GlassLayoutMotion {
                    character: field.character,
                    settle_seconds: field.settle_seconds,
                    intensity: q.clamp(Scalar::from_bits(ZERO), Scalar::from_bits(ONE)),
                    drive: GlassDrive { x, y, pressure, twist },
                },
            )
        },
    }
}

/// An affine transform as a projective one.
pub open spec fn affine_rows(t: Affine) -> Homography {
    Homography {
        top: (t.a, t.c, t.x),
        middle: (t.b, t.d, t.y),
        bottom: (num(ZERO), num(ZERO), num(ONE)),
    }
}

pub fn affine_matrix(t: Affine) -> (r: Homography)
    ensures
        r == affine_rows(t),
{
    let zero = Scalar::from_bits(ZERO);
    Homography {
        top: (t.a, t.c, t.x),
        middle: (t.b, t.d, t.y),
        bottom: (zero, zero, Scalar::from_bits(ONE)),
    }
}

pub open spec fn identity() -> Homography {
    Homography {
        top: (num(ONE), num(ZERO), num(ZERO)),
        middle: (num(ZERO), num(ONE), num(ZERO)),
        bottom: (num(ZERO), num(ZERO), num(ONE)),
    }
}

/// The last of the first `n` nodes that names a node as its child.
pub open spec fn last_parent(a: SceneArtifact, child: int, n: nat) -> Option<usize>
    decreases n,
{
    if n == 0 {
        None
    } else {
        match a.children_of(n - 1) {
            Some(ids) => if names(ids, child) {
                Some((n - 1) as usize)
            } else {
                last_parent(a, child, (n - 1) as nat)
            },
            None => last_parent(a, child, (n - 1) as nat),
        }
    }
}

/// The transform of the nearest ancestor that has one, over at most `fuel` ancestors.
pub open spec fn owner_from(
    a: SceneArtifact,
    transforms: Seq<Entry<Affine>>,
    at: int,
    fuel: nat,
) -> Homography
    decreases fuel,
{
    if fuel == 0 {
        identity()
    } else {
        match last_parent(a, at, a.nodes@.len()) {
            None => identity(),
            Some(p) => match find(transforms, a.nodes@[p as int].key@) {
                Some(t) => affine_rows(t),
                None => owner_from(a, transforms, p as int, (fuel - 1) as nat),
            },
        }
    }
}

/// The transform of the nearest ancestor that has one; the identity without any. No more ancestors
/// are asked than there are nodes: in a tree none is left out.
pub open spec fn owner_of(a: SceneArtifact, transforms: Seq<Entry<Affine>>, at: int) -> Homography {
    owner_from(a, transforms, at, a.nodes@.len())
}

fn find_parent(artifact: &SceneArtifact, child: usize) -> (r: Option<usize>)
    ensures
        r == last_parent(*artifact, child as int, artifact.nodes@.len()),
        r matches Some(p) ==> p < artifact.nodes@.len(),
{
    let mut n: usize = artifact.nodes.len();
    while n > 0
        invariant
            n <= artifact.nodes@.len(),
            last_parent(*artifact, child as int, artifact.nodes@.len()) == last_parent(
                *artifact,
                child as int,
                n as nat,
            ),
        decreases n,
    {
        if let Some(ids) = artifact.child_ids(n - 1) {
            let mut i: usize = 0;
            while i < ids.len()
                invariant
                    0 < n <= artifact.nodes@.len(),
                    i <= ids@.len(),
                    artifact.children_of(n - 1) == Some(ids@),
                    forall|k: int| 0 <= k < i ==> #[trigger] ids@[k].0 != child,
                    last_parent(*artifact, child as int, artifact.nodes@.len()) == last_parent(
                        *artifact,
                        child as int,
                        n as nat,
                    ),
                decreases ids@.len() - i,
            {
                if ids[i].0 as usize == child {
                    assert(names(ids@, child as int));
                    return Some(n - 1);
                }
                i = i + 1;
            }
            assert(!names(ids@, child as int));
        }
        n = n - 1;
    }
    None
}

/// The transform of the nearest ancestor that has one; the identity without any.
pub fn owner_matrix(artifact: &SceneArtifact, transforms: &Vec<Entry<Affine>>, at: usize) -> (r:
    Homography)
    ensures
        r == owner_of(*artifact, transforms@, at as int),
{
    let zero = Scalar::from_bits(ZERO);
    let one = Scalar::from_bits(ONE);
    let mut cursor: usize = at;
    let mut fuel: usize = artifact.nodes.len();
    while fuel > 0
        invariant
            owner_of(*artifact, transforms@, at as int) == owner_from(
                *artifact,
                transforms@,
                cursor as int,
                fuel as nat,
            ),
            zero == num(ZERO),
            one == num(ONE),
        decreases fuel,
    {
        match find_parent(artifact, cursor) {
            None => {
                return Homography {
                    top: (one, zero, zero),
                    middle: (zero, one, zero),
                    bottom: (zero, zero, one),
                };
            },
            Some(p) => {
                if let Some(t) = lookup(transforms, artifact.nodes[p].key.as_str()) {
                    return affine_matrix(*t);
                }
                cursor = p;
            },
        }
        fuel = fuel - 1;
    }
    Homography {
        top: (one, zero, zero),
        middle: (zero, one, zero),
        bottom: (zero, zero, one),
    }
}

/// The intensity of a surface in a field stays within 0 and 1, or is no number at all.
pub proof fn member_intensity_is_bounded<N: Fn(&GlassSum) -> Scalar>(
    sums: N,
    field: GlassLayoutMotion,
    m: GlassSurfaceMotionBinding,
    values: Seq<Value>,
    at: int,
    r: GlassLayoutMotion,
)
    requires
        motion_given(sums, Some(field), m, values, at, Ok(r)),
    ensures
        r.intensity.is_nan_spec() || r.intensity.within(num(ZERO), num(ONE)),
        r.character == field.character,
        r.settle_seconds == field.settle_seconds,
{
    let intensity = number_bound(m.intensity, values, at, "glass member intensity"@)->Ok_0;
    let q = choose|q: Scalar| #[trigger]
        call_ensures(
            sums,
            (&GlassSum::Relative { field: field.intensity, member: intensity },),
            q,
        ) && r.intensity == q.clamp_spec(num(ZERO), num(ONE));
    if !q.is_nan_spec() {
        crate::scalar::clamp_stays_inside(q, num(ZERO), num(ONE));
    }
}

} // verus!
