//! The glass of a frame after layout: its fields and surfaces, and which surface belongs where.

use vstd::prelude::*;

use crate::artifact::{NodeKind, SceneArtifact};
use crate::contours::SegmentGeometry;
use crate::bindings::{number_bound, number_value, path_bound, path_value};
use crate::eval::values_of;
use crate::foreground::{
    bounds_given, foreground_auto_luma, foreground_protection_bounds, luma_given, ForegroundColors,
    RectTask,
};
use crate::glass::{GlassFieldNode, GlassForegroundTone, GlassNode, GlassShapeBinding};
use crate::glass_parts::{
    affine_matrix, affine_rows, environment_bound, field_motion_bound, glass_environment,
    glass_field_motion, glass_material, glass_motion, material_bound, motion_given, owner_matrix,
    owner_of, GlassLayoutEnvironment, GlassLayoutForeground, GlassLayoutMaterial,
    GlassLayoutMotion, GlassSum,
};
use crate::layout_error::{laid, plain, LayoutError, LayoutFault};
use crate::outlines::{flatten, flattened};
use crate::path::{closed_polygon_points, polygon_of, FlatContour, GeometryError, Path};
use crate::planes::has_area;
use crate::recording::{Affine, Homography, Point, Rect};
use crate::scalar::{num, Scalar, ONE, ZERO};
use crate::table::{find, lookup, same_text, Entry};
use crate::text::{decimal, joined, numeral, said3};
use crate::value::{MotionValue, Value};

verus! {

/// Bit pattern of 0.5.
pub const HALF: u64 = 0x3fe0_0000_0000_0000;

#[derive(Clone, Copy, Debug, PartialEq, Eq, Structural)]
pub enum GlassShapeKind {
    ContinuousRect,
    Capsule,
    Circle,
    Path,
}

/// Corners of a projected plane in the viewport, top-left first, clockwise.
#[derive(Clone, Copy, Debug, PartialEq, Eq, Structural)]
pub struct Quad {
    pub top_left: Point,
    pub top_right: Point,
    pub bottom_right: Point,
    pub bottom_left: Point,
}

/// A node's place in 3D after layout.
#[derive(Clone, Copy, Debug, PartialEq, Eq, Structural)]
pub struct PlacedPlane {
    pub quad: Quad,
    pub depth: Scalar,
    pub hidden: bool,
    /// Whether the node itself is projected; containers only carry a depth.
    pub project: bool,
}

/// A glass surface after layout. `viewport_matrix` maps the unit square to the viewport;
/// `owner_to_viewport` maps the pixels of its material owner. Radius and points are narrowed by the
/// host.
#[derive(Debug)]
pub struct GlassLayoutSurface {
    pub node_key: String,
    pub surface_id: String,
    pub field_id: Option<String>,
    pub shape: GlassShapeKind,
    pub local_rect: Rect,
    pub viewport_matrix: Homography,
    pub owner_to_viewport: Homography,
    pub radius: Scalar,
    pub path_points: Vec<Point>,
    pub presence: Scalar,
    pub motion: GlassLayoutMotion,
    pub material: Option<GlassLayoutMaterial>,
    pub environment: Option<GlassLayoutEnvironment>,
    pub foreground: GlassLayoutForeground,
}

/// A surface by its contents.
pub struct Surface {
    pub node_key: Seq<char>,
    pub surface_id: Seq<char>,
    pub field_id: Option<Seq<char>>,
    pub shape: GlassShapeKind,
    pub local_rect: Rect,
    pub viewport_matrix: Homography,
    pub owner_to_viewport: Homography,
    pub radius: Scalar,
    pub path_points: Seq<Point>,
    pub presence: Scalar,
    pub motion: GlassLayoutMotion,
    pub material: Option<GlassLayoutMaterial>,
    pub environment: Option<GlassLayoutEnvironment>,
    pub foreground: GlassLayoutForeground,
}

pub open spec fn name_of(id: Option<String>) -> Option<Seq<char>> {
    match id {
        Some(s) => Some(s@),
        None => None,
    }
}

impl View for GlassLayoutSurface {
    type V = Surface;

    open spec fn view(&self) -> Surface {
        Surface {
            node_key: self.node_key@,
            surface_id: self.surface_id@,
            field_id: name_of(self.field_id),
            shape: self.shape,
            local_rect: self.local_rect,
            viewport_matrix: self.viewport_matrix,
            owner_to_viewport: self.owner_to_viewport,
            radius: self.radius,
            path_points: self.path_points@,
            presence: self.presence,
            motion: self.motion,
            material: self.material,
            environment: self.environment,
            foreground: self.foreground,
        }
    }
}

/// A glass field after layout.
#[derive(Debug)]
pub struct GlassLayoutField {
    pub node_key: String,
    pub field_id: String,
    pub owner_to_viewport: Homography,
    pub material: GlassLayoutMaterial,
    pub environment: GlassLayoutEnvironment,
    pub motion: GlassLayoutMotion,
    pub merge_distance: Scalar,
    pub member_surface_ids: Vec<String>,
}

/// What a field has of its own: its members are listed apart from it.
pub struct Field {
    pub node_key: Seq<char>,
    pub field_id: Seq<char>,
    pub owner_to_viewport: Homography,
    pub material: GlassLayoutMaterial,
    pub environment: GlassLayoutEnvironment,
    pub motion: GlassLayoutMotion,
    pub merge_distance: Scalar,
}

impl GlassLayoutField {
    /// What the field has of its own.
    pub open spec fn own(self) -> Field {
        Field {
            node_key: self.node_key@,
            field_id: self.field_id@,
            owner_to_viewport: self.owner_to_viewport,
            material: self.material,
            environment: self.environment,
            motion: self.motion,
            merge_distance: self.merge_distance,
        }
    }
}

/// The glass of a frame: surfaces and fields by their identifiers, and the field of each node that
/// stands in one.
#[derive(Debug)]
pub struct GlassLayoutFrame {
    pub surfaces: Vec<GlassLayoutSurface>,
    pub fields: Vec<GlassLayoutField>,
    pub node_fields: Vec<Entry<String>>,
}

pub open spec fn surfaces_seen(v: Seq<GlassLayoutSurface>) -> Seq<Surface> {
    v.map_values(|s: GlassLayoutSurface| s@)
}

pub open spec fn fields_seen(v: Seq<GlassLayoutField>) -> Seq<Field> {
    v.map_values(|s: GlassLayoutField| s.own())
}

/// A field, or the error in its place, by what it has of its own.
pub open spec fn field_laid(r: Result<GlassLayoutField, LayoutError>) -> Result<Field, LayoutFault> {
    match r {
        Ok(f) => Ok(f.own()),
        Err(e) => Err(e@),
    }
}

/// A field of this frame: material, then environment, then motion.
pub open spec fn field_bound(
    a: SceneArtifact,
    transforms: Seq<Entry<Affine>>,
    key: Seq<char>,
    field: GlassFieldNode,
    values: Seq<Value>,
    at: int,
) -> Result<Field, LayoutFault> {
    match material_bound(field.material, values, at) {
        Err(f) => Err(f),
        Ok(material) => match environment_bound(field.environment, values, at) {
            Err(f) => Err(f),
            Ok(environment) => match field_motion_bound(field.motion, values, at) {
                Err(f) => Err(f),
                Ok(motion) => Ok(
                    Field {
                        node_key: key,
                        field_id: field.field_id@,
                        owner_to_viewport: owner_of(a, transforms, at),
                        material,
                        environment,
                        motion,
                        merge_distance: field.merge.distance,
                    },
                ),
            },
        },
    }
}

fn read_field(
    artifact: &SceneArtifact,
    transforms: &Vec<Entry<Affine>>,
    key: &String,
    field: &GlassFieldNode,
    values: &Vec<MotionValue>,
    at: usize,
) -> (r: Result<GlassLayoutField, LayoutError>)
    ensures
        field_laid(r) == field_bound(
            *artifact,
            transforms@,
            key@,
            *field,
            values_of(values@),
            at as int,
        ),
{
    let material = match glass_material(&field.material, values, at) {
        Ok(v) => v,
        Err(e) => {
            return Err(e);
        },
    };
    let environment = match glass_environment(&field.environment, values, at) {
        Ok(v) => v,
        Err(e) => {
            return Err(e);
        },
    };
    match glass_field_motion(&field.motion, values, at) {
        Ok(motion) => Ok(
            GlassLayoutField {
                node_key: key.clone(),
                field_id: field.field_id.as_str().to_owned(),
                owner_to_viewport: owner_matrix(artifact, transforms, at),
                material,
                environment,
                motion,
                merge_distance: field.merge.distance,
                member_surface_ids: Vec::new(),
            },
        ),
        Err(e) => Err(e),
    }
}

/// The fields among the first `n` nodes.
pub open spec fn fields_bound(
    a: SceneArtifact,
    transforms: Seq<Entry<Affine>>,
    values: Seq<Value>,
    n: nat,
) -> Result<Seq<Field>, LayoutFault>
    decreases n,
{
    if n == 0 {
        Ok(Seq::empty())
    } else {
        match fields_bound(a, transforms, values, (n - 1) as nat) {
            Err(f) => Err(f),
            Ok(before) => match a.nodes@[n - 1].kind {
                NodeKind::GlassField(field) => match field_bound(
                    a,
                    transforms,
                    a.nodes@[n - 1].key@,
                    field,
                    values,
                    n - 1,
                ) {
                    Err(f) => Err(f),
                    Ok(one) => Ok(before.push(one)),
                },
                _ => Ok(before),
            },
        }
    }
}

proof fn fields_stuck(
    a: SceneArtifact,
    transforms: Seq<Entry<Affine>>,
    values: Seq<Value>,
    n: nat,
    m: nat,
)
    requires
        n <= m,
        fields_bound(a, transforms, values, n) is Err,
    ensures
        fields_bound(a, transforms, values, m) == fields_bound(a, transforms, values, n),
    decreases m,
{
    if n < m {
        fields_stuck(a, transforms, values, n, (m - 1) as nat);
    }
}

pub(crate) fn read_fields(
    artifact: &SceneArtifact,
    transforms: &Vec<Entry<Affine>>,
    values: &Vec<MotionValue>,
) -> (r: Result<Vec<GlassLayoutField>, LayoutError>)
    ensures
        fields_bound(*artifact, transforms@, values_of(values@), artifact.nodes@.len()) == match r {
            Ok(v) => Ok(fields_seen(v@)),
            Err(e) => Err(e@),
        },
{
    let mut out: Vec<GlassLayoutField> = Vec::new();
    let mut at: usize = 0;
    assert(fields_seen(out@) =~= Seq::empty());
    while at < artifact.nodes.len()
        invariant
            at <= artifact.nodes@.len(),
            fields_bound(*artifact, transforms@, values_of(values@), at as nat) == Ok::<
                Seq<Field>,
                LayoutFault,
            >(fields_seen(out@)),
        decreases artifact.nodes@.len() - at,
    {
        let ghost before = out@;
        if let NodeKind::GlassField(field) = &artifact.nodes[at].kind {
            match read_field(artifact, transforms, &artifact.nodes[at].key, field, values, at) {
                Err(e) => {
                    proof {
                        fields_stuck(
                            *artifact,
                            transforms@,
                            values_of(values@),
                            (at + 1) as nat,
                            artifact.nodes@.len(),
                        );
                    }
                    return Err(e);
                },
                Ok(one) => {
                    out.push(one);
                    assert(fields_seen(out@) =~= fields_seen(before).push(one.own()));
                },
            }
        }
        at = at + 1;
    }
    Ok(out)
}

/// The last of the first `n` fields with an identifier.
pub open spec fn field_named(fields: Seq<Field>, id: Seq<char>, n: nat) -> Option<Field>
    decreases n,
{
    if n == 0 {
        None
    } else if fields[n - 1].field_id == id {
        Some(fields[n - 1])
    } else {
        field_named(fields, id, (n - 1) as nat)
    }
}

/// The field that a surface belongs to.
pub open spec fn field_around(fields: Seq<Field>, member: Option<Seq<char>>) -> Option<Field> {
    match member {
        Some(id) => field_named(fields, id, fields.len()),
        None => None,
    }
}

fn find_field(fields: &Vec<GlassLayoutField>, member: &Option<String>) -> (r: Option<usize>)
    ensures
        match r {
            Some(i) => i < fields@.len() && field_around(
                fields_seen(fields@),
                name_of(*member),
            ) == Some(fields@[i as int].own()),
            None => field_around(fields_seen(fields@), name_of(*member)) is None,
        },
{
    match member {
        None => None,
        Some(id) => {
            let mut n: usize = fields.len();
            while n > 0
                invariant
                    n <= fields@.len(),
                    name_of(*member) == Some(id@),
                    field_named(fields_seen(fields@), id@, fields@.len()) == field_named(
                        fields_seen(fields@),
                        id@,
                        n as nat,
                    ),
                decreases n,
            {
                if same_text(fields[n - 1].field_id.as_str(), id.as_str()) {
                    assert(fields_seen(fields@)[n - 1] == fields@[n - 1].own());
                    return Some(n - 1);
                }
                n = n - 1;
            }
            None
        },
    }
}

/// Whether a transform is that of a surface: its own, or the place of its box in single precision.
pub open spec fn transform_given<N: Fn(&GlassSum) -> Scalar>(
    sums: N,
    transforms: Seq<Entry<Affine>>,
    key: Seq<char>,
    rect: Rect,
    r: Affine,
) -> bool {
    match find(transforms, key) {
        Some(t) => r == t,
        None => r.a == num(ONE) && r.b == num(ZERO) && r.c == num(ZERO) && r.d == num(ONE)
            && call_ensures(sums, (&GlassSum::Single { x: rect.x },), r.x) && call_ensures(
            sums,
            (&GlassSum::Single { x: rect.y },),
            r.y,
        ),
    }
}

fn surface_transform<N: Fn(&GlassSum) -> Scalar>(
    sums: &N,
    transforms: &Vec<Entry<Affine>>,
    key: &str,
    rect: Rect,
) -> (r: Affine)
    requires
        forall|s: GlassSum| call_requires(*sums, (&s,)),
    ensures
        transform_given(*sums, transforms@, key@, rect, r),
{
    match lookup(transforms, key) {
        Some(t) => *t,
        None => Affine {
            a: Scalar::from_bits(ONE),
            b: Scalar::from_bits(ZERO),
            c: Scalar::from_bits(ZERO),
            d: Scalar::from_bits(ONE),
            x: sums(&GlassSum::Single { x: rect.x }),
            y: sums(&GlassSum::Single { x: rect.y }),
        },
    }
}

/// Whether a matrix maps the unit square to a box under a transform.
pub open spec fn spans<N: Fn(&GlassSum) -> Scalar>(sums: N, t: Affine, rect: Rect, r: Homography) -> bool {
    &&& call_ensures(sums, (&GlassSum::Product { a: t.a, b: rect.width },), r.top.0)
    &&& call_ensures(sums, (&GlassSum::Product { a: t.c, b: rect.height },), r.top.1)
    &&& r.top.2 == t.x
    &&& call_ensures(sums, (&GlassSum::Product { a: t.b, b: rect.width },), r.middle.0)
    &&& call_ensures(sums, (&GlassSum::Product { a: t.d, b: rect.height },), r.middle.1)
    &&& r.middle.2 == t.y
    &&& r.bottom == (num(ZERO), num(ZERO), num(ONE))
}

/// Whether `r` is the viewport matrix of a surface: that of its projected corners where it is a
/// plane, else that of its box.
pub open spec fn viewport_given<
    N: Fn(&GlassSum) -> Scalar,
    Q: Fn(&Quad) -> Option<Homography>,
>(
    sums: N,
    project: Q,
    planes: Seq<Entry<PlacedPlane>>,
    key: Seq<char>,
    t: Affine,
    rect: Rect,
    r: Result<Homography, LayoutFault>,
) -> bool {
    match find(planes, key) {
        Some(plane) if plane.project => match r {
            Ok(h) => call_ensures(project, (&plane.quad,), Some(h)),
            Err(f) => call_ensures(project, (&plane.quad,), None) && f == LayoutFault::BadStyle(
                key,
                "Glass CSS 3D projection"@,
                "projected Glass quad is degenerate or self-intersecting"@,
            ),
        },
        _ => r matches Ok(h) && spans(sums, t, rect, h),
    }
}

fn surface_viewport<N: Fn(&GlassSum) -> Scalar, Q: Fn(&Quad) -> Option<Homography>>(
    sums: &N,
    project: &Q,
    planes: &Vec<Entry<PlacedPlane>>,
    key: &String,
    t: Affine,
    rect: Rect,
) -> (r: Result<Homography, LayoutError>)
    requires
        forall|s: GlassSum| call_requires(*sums, (&s,)),
        forall|q: Quad| call_requires(*project, (&q,)),
    ensures
        viewport_given(*sums, *project, planes@, key@, t, rect, plain(r)),
{
    if let Some(plane) = lookup(planes, key.as_str()) {
        if plane.project {
            return match project(&plane.quad) {
                Some(h) => Ok(h),
                None => Err(
                    LayoutError::BadStyle {
                        node: key.clone(),
                        declarations: "Glass CSS 3D projection".to_owned(),
                        reason: "projected Glass quad is degenerate or self-intersecting".to_owned(),
                    },
                ),
            };
        }
    }
    let zero = Scalar::from_bits(ZERO);
    Ok(
        Homography {
            top: (
                sums(&GlassSum::Product { a: t.a, b: rect.width }),
                sums(&GlassSum::Product { a: t.c, b: rect.height }),
                t.x,
            ),
            middle: (
                sums(&GlassSum::Product { a: t.b, b: rect.width }),
                sums(&GlassSum::Product { a: t.d, b: rect.height }),
                t.y,
            ),
            bottom: (zero, zero, Scalar::from_bits(ONE)),
        },
    )
}

/// The outline of a surface.
#[derive(Debug)]
pub struct Outline {
    pub kind: GlassShapeKind,
    pub radius: Scalar,
    pub points: Vec<Point>,
}

/// The smaller of two sizes.
pub open spec fn lesser(w: Scalar, h: Scalar) -> Scalar {
    if h.lt_spec(w) {
        h
    } else {
        w
    }
}

/// Whether an outline is round: half the smaller size, without points.
pub open spec fn is_round<N: Fn(&GlassSum) -> Scalar>(
    sums: N,
    kind: GlassShapeKind,
    rect: Rect,
    r: Result<(GlassShapeKind, Scalar, Seq<Point>), LayoutFault>,
) -> bool {
    r matches Ok(o) && o.0 == kind && call_ensures(
        sums,
        (&GlassSum::Product { a: lesser(rect.width, rect.height), b: num(HALF) },),
        o.1,
    ) && o.2 == Seq::<Point>::empty()
}

/// The outline of a flattened path: one closed contour of at most `limit` points.
pub open spec fn outlined(
    flat: Result<Vec<FlatContour>, GeometryError>,
    node: Seq<char>,
    limit: nat,
) -> Result<(GlassShapeKind, Scalar, Seq<Point>), LayoutFault> {
    let polygon = match flat {
        Ok(contours) => polygon_of(contours@),
        Err(e) => Err(e),
    };
    match polygon {
        Err(e) => Err(
            LayoutFault::BadPaint(node, "Glass path must be one closed contour: "@ + e.text()),
        ),
        Ok(points) => if points.len() > limit {
            Err(
                LayoutFault::BadPaint(
                    node,
                    "Glass path has "@ + numeral(points.len())
                        + " flattened points; maximum is "@ + numeral(limit),
                ),
            )
        } else {
            Ok((GlassShapeKind::Path, num(ZERO), points))
        },
    }
}

/// Whether `r` is the outline of a path.
pub open spec fn path_outlined<P: Fn(&SegmentGeometry, usize) -> Point>(
    curve: P,
    p: Path,
    node: Seq<char>,
    limit: nat,
    r: Result<(GlassShapeKind, Scalar, Seq<Point>), LayoutFault>,
) -> bool {
    exists|flat: Result<Vec<FlatContour>, GeometryError>| #[trigger]
        flattened(curve, p, flat) && r == outlined(flat, node, limit)
}

/// Whether `r` is the outline of a surface.
pub open spec fn outline_given<
    N: Fn(&GlassSum) -> Scalar,
    P: Fn(&SegmentGeometry, usize) -> Point,
>(
    sums: N,
    curve: P,
    shape: GlassShapeBinding,
    values: Seq<Value>,
    at: int,
    node: Seq<char>,
    rect: Rect,
    limit: nat,
    r: Result<(GlassShapeKind, Scalar, Seq<Point>), LayoutFault>,
) -> bool {
    match shape {
        GlassShapeBinding::Capsule => is_round(sums, GlassShapeKind::Capsule, rect, r),
        GlassShapeBinding::Circle => is_round(sums, GlassShapeKind::Circle, rect, r),
        GlassShapeBinding::ContinuousRect { radius } => r == match number_bound(
            radius,
            values,
            at,
            "glass continuous radius"@,
        ) {
            Ok(x) => Ok((GlassShapeKind::ContinuousRect, x, Seq::<Point>::empty())),
            Err(f) => Err(f),
        },
        GlassShapeBinding::Path { path, .. } => match path_bound(path, values, at) {
            Err(f) => r == Err::<(GlassShapeKind, Scalar, Seq<Point>), LayoutFault>(f),
            Ok(p) => path_outlined(curve, p, node, limit, r),
        },
    }
}

pub open spec fn outline_seen(r: Result<Outline, LayoutError>) -> Result<
    (GlassShapeKind, Scalar, Seq<Point>),
    LayoutFault,
> {
    match r {
        Ok(o) => Ok((o.kind, o.radius, o.points@)),
        Err(e) => Err(e@),
    }
}

/// The outline of a flattened path.
pub fn path_outline(
    flat: Result<Vec<FlatContour>, GeometryError>,
    node: &String,
    limit: usize,
) -> (r: Result<Outline, LayoutError>)
    ensures
        outline_seen(r) == outlined(flat, node@, limit as nat),
{
    let polygon = match &flat {
        Ok(contours) => closed_polygon_points(contours),
        Err(e) => Err(*e),
    };
    match polygon {
        Err(e) => Err(
            LayoutError::BadPaint {
                node: node.clone(),
                reason: joined(
                    "Glass path must be one closed contour: ".to_owned(),
                    e.message().as_str(),
                ),
            },
        ),
        Ok(points) => if points.len() > limit {
            Err(
                LayoutError::BadPaint {
                    node: node.clone(),
                    reason: joined(
                        said3(
                            "Glass path has ",
                            decimal(points.len() as u64).as_str(),
                            " flattened points; maximum is ",
                        ),
                        decimal(limit as u64).as_str(),
                    ),
                },
            )
        } else {
            Ok(
                Outline {
                    kind: GlassShapeKind::Path,
                    radius: Scalar::from_bits(ZERO),
                    points,
                },
            )
        },
    }
}

fn round_outline<N: Fn(&GlassSum) -> Scalar>(sums: &N, kind: GlassShapeKind, rect: Rect) -> (r:
    Result<Outline, LayoutError>)
    requires
        forall|s: GlassSum| call_requires(*sums, (&s,)),
    ensures
        is_round(*sums, kind, rect, outline_seen(r)),
{
    let smaller = if rect.height.lt(rect.width) {
        rect.height
    } else {
        rect.width
    };
    let radius = sums(&GlassSum::Product { a: smaller, b: Scalar::from_bits(HALF) });
    let points: Vec<Point> = Vec::new();
    assert(points@ =~= Seq::<Point>::empty());
    Ok(Outline { kind, radius, points })
}

fn surface_outline<
    N: Fn(&GlassSum) -> Scalar,
    P: Fn(&SegmentGeometry, usize) -> Point,
>(
    sums: &N,
    curve: &P,
    shape: &GlassShapeBinding,
    values: &Vec<MotionValue>,
    at: usize,
    node: &String,
    rect: Rect,
    limit: usize,
) -> (r: Result<Outline, LayoutError>)
    requires
        forall|s: GlassSum| call_requires(*sums, (&s,)),
        forall|s: SegmentGeometry, i: usize| call_requires(*curve, (&s, i)),
    ensures
        outline_given(
            *sums,
            *curve,
            *shape,
            values_of(values@),
            at as int,
            node@,
            rect,
            limit as nat,
            outline_seen(r),
        ),
{
    match shape {
        GlassShapeBinding::Capsule => round_outline(sums, GlassShapeKind::Capsule, rect),
        GlassShapeBinding::Circle => round_outline(sums, GlassShapeKind::Circle, rect),
        GlassShapeBinding::ContinuousRect { radius } => match number_value(
            *radius,
            values,
            at,
            "glass continuous radius",
        ) {
            Ok(x) => {
                let points: Vec<Point> = Vec::new();
                assert(points@ =~= Seq::<Point>::empty());
                Ok(Outline { kind: GlassShapeKind::ContinuousRect, radius: x, points })
            },
            Err(e) => Err(e),
        },
        GlassShapeBinding::Path { path, .. } => match path_value(path, values, at) {
            Err(e) => Err(e),
            Ok(d) => {
                let flat = flatten(curve, d);
                let ghost told = flat;
                let r = path_outline(flat, node, limit);
                assert(flattened(*curve, d@, told));
                assert(path_outlined(*curve, d@, node@, limit as nat, outline_seen(r)));
                r
            },
        },
    }
}

/// Whether the colors in front of a surface decide its tone.
pub open spec fn wants_luma(tone: GlassForegroundTone, protection: Scalar, bounds: Option<Rect>) -> bool {
    tone == GlassForegroundTone::Auto && num(ZERO).lt_spec(protection) && bounds is Some
}

pub open spec fn unknown_color(node: Seq<char>) -> LayoutFault {
    LayoutFault::BadPaint(
        node,
        "auto Glass foreground has pixels without a resolvable color descriptor; use tone light, dark, or none"@,
    )
}

/// Whether `r` is the luminance that decides the tone of a surface.
pub open spec fn tone_given<L: Fn(&Vec<ForegroundColors>) -> Option<Scalar>>(
    luma: L,
    a: SceneArtifact,
    values: Seq<Value>,
    boxes: Seq<Entry<Rect>>,
    at: int,
    wanted: bool,
    r: Result<Option<Scalar>, LayoutFault>,
) -> bool {
    if wanted {
        match r {
            Ok(x) => x is Some && luma_given(luma, a, values, boxes, at, Ok(x)),
            Err(f) => luma_given(luma, a, values, boxes, at, Err(f)) || (luma_given(
                luma,
                a,
                values,
                boxes,
                at,
                Ok(None),
            ) && f == unknown_color(a.nodes@[at].key@)),
        }
    } else {
        r == Ok::<Option<Scalar>, LayoutFault>(None)
    }
}

fn surface_tone<L: Fn(&Vec<ForegroundColors>) -> Option<Scalar>>(
    luma: &L,
    artifact: &SceneArtifact,
    values: &Vec<MotionValue>,
    boxes: &Vec<Entry<Rect>>,
    at: usize,
    wanted: bool,
) -> (r: Result<Option<Scalar>, LayoutError>)
    requires
        at < artifact.nodes@.len(),
        forall|v: Vec<ForegroundColors>| call_requires(*luma, (&v,)),
    ensures
        tone_given(*luma, *artifact, values_of(values@), boxes@, at as int, wanted, plain(r)),
{
    if !wanted {
        return Ok(None);
    }
    match foreground_auto_luma(luma, artifact, at, values, boxes) {
        Err(e) => Err(e),
        Ok(Some(x)) => Ok(Some(x)),
        Ok(None) => Err(
            LayoutError::BadPaint {
                node: artifact.nodes[at].key.clone(),
                reason: "auto Glass foreground has pixels without a resolvable color descriptor; use tone light, dark, or none".to_owned(),
            },
        ),
    }
}

/// What the host's work gives for a surface.
pub struct SurfaceParts {
    pub transform: Affine,
    pub viewport: Result<Homography, LayoutFault>,
    pub outline: Result<(GlassShapeKind, Scalar, Seq<Point>), LayoutFault>,
    pub motion: Result<GlassLayoutMotion, LayoutFault>,
    pub bounds: Option<Rect>,
    pub luma: Result<Option<Scalar>, LayoutFault>,
}

/// The functions of the host.
pub struct GlassHost<'a, N, Q, P, R, L> {
    /// Arithmetic.
    pub sums: &'a N,
    /// The map from the unit square to a quadrilateral, where it has one.
    pub project: &'a Q,
    /// The point of a curve at a step.
    pub curve: &'a P,
    /// Rectangles.
    pub rects: &'a R,
    /// The luminance of colors, where any of them is opaque.
    pub luma: &'a L,
}

/// What layout gave: boxes, paint transforms and 3D planes by node key, and how many points the
/// outline of a surface may have.
pub struct Placed<'a> {
    pub boxes: &'a Vec<Entry<Rect>>,
    pub transforms: &'a Vec<Entry<Affine>>,
    pub planes: &'a Vec<Entry<PlacedPlane>>,
    pub limit: usize,
}

/// Whether the functions of the host can be called.
pub open spec fn callable<
    N: Fn(&GlassSum) -> Scalar,
    Q: Fn(&Quad) -> Option<Homography>,
    P: Fn(&SegmentGeometry, usize) -> Point,
    R: Fn(&RectTask) -> Option<Rect>,
    L: Fn(&Vec<ForegroundColors>) -> Option<Scalar>,
>(host: GlassHost<N, Q, P, R, L>) -> bool {
    &&& forall|s: GlassSum| call_requires(*host.sums, (&s,))
    &&& forall|q: Quad| call_requires(*host.project, (&q,))
    &&& forall|s: SegmentGeometry, i: usize| call_requires(*host.curve, (&s, i))
    &&& forall|t: RectTask| call_requires(*host.rects, (&t,))
    &&& forall|v: Vec<ForegroundColors>| call_requires(*host.luma, (&v,))
}

/// The transform of what owns the material of a surface: its field's, or its own.
pub open spec fn owner_rows(field: Option<Field>, own: Affine) -> Homography {
    match field {
        Some(f) => f.owner_to_viewport,
        None => affine_rows(own),
    }
}

pub open spec fn motion_of(field: Option<Field>) -> Option<GlassLayoutMotion> {
    match field {
        Some(f) => Some(f.motion),
        None => None,
    }
}

pub open spec fn protection_of(glass: GlassNode, values: Seq<Value>, at: int) -> Result<
    Scalar,
    LayoutFault,
> {
    number_bound(glass.foreground.protection, values, at, "glass foreground protection"@)
}

/// Whether the parts of a surface come from the host, each as long as nothing failed before it.
pub open spec fn parts_given<
    N: Fn(&GlassSum) -> Scalar,
    Q: Fn(&Quad) -> Option<Homography>,
    P: Fn(&SegmentGeometry, usize) -> Point,
    R: Fn(&RectTask) -> Option<Rect>,
    L: Fn(&Vec<ForegroundColors>) -> Option<Scalar>,
>(
    host: GlassHost<N, Q, P, R, L>,
    a: SceneArtifact,
    values: Seq<Value>,
    placed: Placed,
    rect: Rect,
    glass: GlassNode,
    field: Option<Field>,
    at: int,
    p: SurfaceParts,
) -> bool {
    let key = a.nodes@[at].key@;
    &&& transform_given(*host.sums, placed.transforms@, key, rect, p.transform)
    &&& viewport_given(
        *host.sums,
        *host.project,
        placed.planes@,
        key,
        p.transform,
        rect,
        p.viewport,
    )
    &&& p.viewport is Ok ==> outline_given(
        *host.sums,
        *host.curve,
        glass.shape,
        values,
        at,
        key,
        rect,
        placed.limit as nat,
        p.outline,
    )
    &&& p.viewport is Ok && p.outline is Ok ==> motion_given(
        *host.sums,
        motion_of(field),
        glass.motion,
        values,
        at,
        p.motion,
    )
    &&& p.viewport is Ok && p.outline is Ok && p.motion is Ok ==> bounds_given(
        *host.rects,
        a,
        placed.boxes@,
        placed.transforms@,
        owner_rows(field, p.transform),
        at,
        p.bounds,
    )
    &&& p.viewport is Ok && p.outline is Ok && p.motion is Ok && protection_of(glass, values, at)
        is Ok ==> tone_given(
        *host.luma,
        a,
        values,
        placed.boxes@,
        at,
        wants_luma(
            glass.foreground.tone,
            protection_of(glass, values, at)->Ok_0,
            p.bounds,
        ),
        p.luma,
    )
}

/// The presence of a surface: none where its plane is turned away.
pub open spec fn presence_of(
    planes: Seq<Entry<PlacedPlane>>,
    key: Seq<char>,
    glass: GlassNode,
    values: Seq<Value>,
    at: int,
) -> Result<Scalar, LayoutFault> {
    match find(planes, key) {
        Some(plane) if plane.hidden => Ok(num(ZERO)),
        _ => number_bound(glass.presence, values, at, "glass presence"@),
    }
}

pub open spec fn maybe_material(glass: GlassNode, values: Seq<Value>, at: int) -> Result<
    Option<GlassLayoutMaterial>,
    LayoutFault,
> {
    match glass.material {
        None => Ok(None),
        Some(m) => match material_bound(m, values, at) {
            Ok(m) => Ok(Some(m)),
            Err(f) => Err(f),
        },
    }
}

pub open spec fn maybe_environment(glass: GlassNode, values: Seq<Value>, at: int) -> Result<
    Option<GlassLayoutEnvironment>,
    LayoutFault,
> {
    match glass.environment {
        None => Ok(None),
        Some(e) => match environment_bound(e, values, at) {
            Ok(e) => Ok(Some(e)),
            Err(f) => Err(f),
        },
    }
}

/// A surface from its parts: the first failure, or the surface.
pub open spec fn assembled(
    values: Seq<Value>,
    planes: Seq<Entry<PlacedPlane>>,
    rect: Rect,
    key: Seq<char>,
    glass: GlassNode,
    member: Option<Seq<char>>,
    field: Option<Field>,
    at: int,
    p: SurfaceParts,
) -> Result<Surface, LayoutFault> {
    if p.viewport is Err {
        Err(p.viewport->Err_0)
    } else if p.outline is Err {
        Err(p.outline->Err_0)
    } else if p.motion is Err {
        Err(p.motion->Err_0)
    } else if protection_of(glass, values, at) is Err {
        Err(protection_of(glass, values, at)->Err_0)
    } else if p.luma is Err {
        Err(p.luma->Err_0)
    } else if presence_of(planes, key, glass, values, at) is Err {
        Err(presence_of(planes, key, glass, values, at)->Err_0)
    } else if maybe_material(glass, values, at) is Err {
        Err(maybe_material(glass, values, at)->Err_0)
    } else if maybe_environment(glass, values, at) is Err {
        Err(maybe_environment(glass, values, at)->Err_0)
    } else {
        Ok(
            Surface {
                node_key: key,
                surface_id: glass.surface_id@,
                field_id: member,
                shape: p.outline->Ok_0.0,
                local_rect: Rect {
                    x: num(ZERO),
                    y: num(ZERO),
                    width: rect.width,
                    height: rect.height,
                },
                viewport_matrix: p.viewport->Ok_0,
                owner_to_viewport: owner_rows(field, p.transform),
                radius: p.outline->Ok_0.1,
                path_points: p.outline->Ok_0.2,
                presence: presence_of(planes, key, glass, values, at)->Ok_0,
                motion: p.motion->Ok_0,
                material: maybe_material(glass, values, at)->Ok_0,
                environment: maybe_environment(glass, values, at)->Ok_0,
                foreground: GlassLayoutForeground {
                    tone: glass.foreground.tone,
                    protection: protection_of(glass, values, at)->Ok_0,
                    bounds: p.bounds,
                    luma: p.luma->Ok_0,
                },
            },
        )
    }
}

/// Whether `r` is the surface of a node: it needs a box with an area.
pub open spec fn surface_given<
    N: Fn(&GlassSum) -> Scalar,
    Q: Fn(&Quad) -> Option<Homography>,
    P: Fn(&SegmentGeometry, usize) -> Point,
    R: Fn(&RectTask) -> Option<Rect>,
    L: Fn(&Vec<ForegroundColors>) -> Option<Scalar>,
>(
    host: GlassHost<N, Q, P, R, L>,
    a: SceneArtifact,
    values: Seq<Value>,
    placed: Placed,
    fields: Seq<Field>,
    member: Option<Seq<char>>,
    glass: GlassNode,
    at: int,
    r: Result<Surface, LayoutFault>,
) -> bool {
    let key = a.nodes@[at].key@;
    let field = field_around(fields, member);
    match find(placed.boxes@, key) {
        None => r == Err::<Surface, LayoutFault>(LayoutFault::BadNode(at)),
        Some(rect) => if !has_area(rect) {
            r == Err::<Surface, LayoutFault>(
                LayoutFault::BadStyle(
                    key,
                    "Glass layout box"@,
                    "Glass requires a positive layout box"@,
                ),
            )
        } else {
            exists|p: SurfaceParts| #[trigger]
                parts_given(host, a, values, placed, rect, glass, field, at, p) && r == assembled(
                    values,
                    placed.planes@,
                    rect,
                    key,
                    glass,
                    member,
                    field,
                    at,
                    p,
                )
        },
    }
}

fn surface_presence(
    planes: &Vec<Entry<PlacedPlane>>,
    key: &str,
    glass: &GlassNode,
    values: &Vec<MotionValue>,
    at: usize,
) -> (r: Result<Scalar, LayoutError>)
    ensures
        plain(r) == presence_of(planes@, key@, *glass, values_of(values@), at as int),
{
    if let Some(plane) = lookup(planes, key) {
        if plane.hidden {
            return Ok(Scalar::from_bits(ZERO));
        }
    }
    number_value(glass.presence, values, at, "glass presence")
}

fn surface_material(glass: &GlassNode, values: &Vec<MotionValue>, at: usize) -> (r: Result<
    Option<GlassLayoutMaterial>,
    LayoutError,
>)
    ensures
        plain(r) == maybe_material(*glass, values_of(values@), at as int),
{
    match &glass.material {
        None => Ok(None),
        Some(m) => match glass_material(m, values, at) {
            Ok(m) => Ok(Some(m)),
            Err(e) => Err(e),
        },
    }
}

fn surface_environment(glass: &GlassNode, values: &Vec<MotionValue>, at: usize) -> (r: Result<
    Option<GlassLayoutEnvironment>,
    LayoutError,
>)
    ensures
        plain(r) == maybe_environment(*glass, values_of(values@), at as int),
{
    match &glass.environment {
        None => Ok(None),
        Some(m) => match glass_environment(m, values, at) {
            Ok(m) => Ok(Some(m)),
            Err(e) => Err(e),
        },
    }
}

/// A surface of this frame.
pub fn glass_surface<
    N: Fn(&GlassSum) -> Scalar,
    Q: Fn(&Quad) -> Option<Homography>,
    P: Fn(&SegmentGeometry, usize) -> Point,
    R: Fn(&RectTask) -> Option<Rect>,
    L: Fn(&Vec<ForegroundColors>) -> Option<Scalar>,
>(
    host: &GlassHost<N, Q, P, R, L>,
    artifact: &SceneArtifact,
    values: &Vec<MotionValue>,
    placed: &Placed,
    fields: &Vec<GlassLayoutField>,
    member: Option<String>,
    glass: &GlassNode,
    at: usize,
) -> (r: Result<GlassLayoutSurface, LayoutError>)
    requires
        at < artifact.nodes@.len(),
        callable(*host),
    ensures
        surface_given(
            *host,
            *artifact,
            values_of(values@),
            *placed,
            fields_seen(fields@),
            name_of(member),
            *glass,
            at as int,
            laid(r),
        ),
{
    let key = &artifact.nodes[at].key;
    let rect = match lookup(placed.boxes, key.as_str()) {
        Some(b) => *b,
        None => {
            return Err(LayoutError::BadNode { at });
        },
    };
    let zero = Scalar::from_bits(ZERO);
    if !(zero.lt(rect.width) && zero.lt(rect.height)) {
        return Err(
            LayoutError::BadStyle {
                node: key.clone(),
                declarations: "Glass layout box".to_owned(),
                reason: "Glass requires a positive layout box".to_owned(),
            },
        );
    }
    let found = find_field(fields, &member);
    let ghost field = field_around(fields_seen(fields@), name_of(member));
    let ghost told = values_of(values@);
    let transform = surface_transform(host.sums, placed.transforms, key.as_str(), rect);
    let ghost mut p = SurfaceParts {
        transform,
        viewport: arbitrary(),
        outline: arbitrary(),
        motion: arbitrary(),
        bounds: arbitrary(),
        luma: arbitrary(),
    };
    let viewport = surface_viewport(
        host.sums,
        host.project,
        placed.planes,
        key,
        transform,
        rect,
    );
    proof {
        p.viewport = plain(viewport);
    }
    let viewport_matrix = match viewport {
        Ok(v) => v,
        Err(e) => {
            assert(parts_given(*host, *artifact, told, *placed, rect, *glass, field, at as int, p));
            return Err(e);
        },
    };
    let outline = surface_outline(
        host.sums,
        host.curve,
        &glass.shape,
        values,
        at,
        key,
        rect,
        placed.limit,
    );
    proof {
        p.outline = outline_seen(outline);
    }
    let outline = match outline {
        Ok(v) => v,
        Err(e) => {
            assert(parts_given(*host, *artifact, told, *placed, rect, *glass, field, at as int, p));
            return Err(e);
        },
    };
    let around: Option<GlassLayoutMotion> = match found {
        Some(i) => Some(fields[i].motion),
        None => None,
    };
    assert(around == motion_of(field));
    let motion = glass_motion(host.sums, around, &glass.motion, values, at);
    proof {
        p.motion = plain(motion);
    }
    let motion = match motion {
        Ok(v) => v,
        Err(e) => {
            assert(parts_given(*host, *artifact, told, *placed, rect, *glass, field, at as int, p));
            return Err(e);
        },
    };
    let owner_to_viewport = match found {
        Some(i) => fields[i].owner_to_viewport,
        None => affine_matrix(transform),
    };
    let bounds = foreground_protection_bounds(
        host.rects,
        artifact,
        at,
        placed.boxes,
        placed.transforms,
        owner_to_viewport,
    );
    proof {
        p.bounds = bounds;
    }
    let protection = match number_value(
        glass.foreground.protection,
        values,
        at,
        "glass foreground protection",
    ) {
        Ok(v) => v,
        Err(e) => {
            assert(parts_given(*host, *artifact, told, *placed, rect, *glass, field, at as int, p));
            return Err(e);
        },
    };
    let wanted = glass.foreground.tone == GlassForegroundTone::Auto && zero.lt(protection)
        && bounds.is_some();
    let luma = surface_tone(host.luma, artifact, values, placed.boxes, at, wanted);
    proof {
        p.luma = plain(luma);
    }
    assert(parts_given(*host, *artifact, told, *placed, rect, *glass, field, at as int, p));
    let luma = match luma {
        Ok(v) => v,
        Err(e) => {
            return Err(e);
        },
    };
    let presence = match surface_presence(placed.planes, key.as_str(), glass, values, at) {
        Ok(v) => v,
        Err(e) => {
            return Err(e);
        },
    };
    let material = match surface_material(glass, values, at) {
        Ok(v) => v,
        Err(e) => {
            return Err(e);
        },
    };
    let environment = match surface_environment(glass, values, at) {
        Ok(v) => v,
        Err(e) => {
            return Err(e);
        },
    };
    Ok(
        GlassLayoutSurface {
            node_key: key.clone(),
            surface_id: glass.surface_id.as_str().to_owned(),
            field_id: member,
            shape: outline.kind,
            local_rect: Rect { x: zero, y: zero, width: rect.width, height: rect.height },
            viewport_matrix,
            owner_to_viewport,
            radius: outline.radius,
            path_points: outline.points,
            presence,
            motion,
            material,
            environment,
            foreground: GlassLayoutForeground {
                tone: glass.foreground.tone,
                protection,
                bounds,
                luma,
            },
        },
    )
}

} // verus!
