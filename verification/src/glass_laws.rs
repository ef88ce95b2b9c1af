//! What glass is made of: material, drive, light and motion by their bindings, the outline and place of a
//! surface, what owns it, and what stands in front of it.

use vstd::prelude::*;

use crate::artifact::{NodeKind, SceneArtifact, SceneNode, StyleBinding};
use crate::bindings::{paint_bound, style_valued, Painted};
use crate::binding_laws::{gives_color, gives_number, gives_point};
use crate::foreground::{
    bounds_step, children_at, gathered, node_colors, node_paints, style_colors, visited, ForegroundColors,
    RectTask,
};
use crate::glass::{
    GlassCharacter, GlassDriveBinding, GlassEnvironmentBinding, GlassFieldMotionBinding,
    GlassFieldNode, GlassMaterialBinding, GlassNode, GlassShapeBinding,
    GlassSurfaceMotionBinding,
};
use crate::glass_frame::{
    assembled, field_around, field_bound, outline_given, surface_given, viewport_given, Field, GlassHost,
    GlassShapeKind, Placed, PlacedPlane, Quad, Surface, SurfaceParts,
};
use crate::glass_parts::{
    drive_bound, environment_bound, field_motion_bound, last_parent, material_bound, motion_given,
    owner_from, GlassDrive, GlassLayoutEnvironment, GlassLayoutMaterial, GlassLayoutMotion, GlassSum,
};
use crate::layout_error::LayoutFault;
use crate::contours::SegmentGeometry;
use crate::recording::{Affine, Homography, Point, Rect, Rgba};
use crate::scalar::{num, Scalar};
use crate::table::{find, Entry};
use crate::text::begins;
use crate::value::Value;

verus! {

/// A material has the clarity, the depth and the tint that its bindings give.
pub proof fn materials_hold_their_parts(
    m: GlassMaterialBinding,
    values: Seq<Value>,
    at: int,
    r: GlassLayoutMaterial,
)
    ensures
        material_bound(m, values, at) == Ok::<GlassLayoutMaterial, LayoutFault>(r) <==> gives_number(
            m.clarity,
            values,
            r.clarity,
        ) && gives_number(m.depth, values, r.depth) && gives_color(m.tint, values, r.tint),
{
}

/// Whether a drive is what its bindings give; what is not driven stands still.
pub open spec fn drives(d: GlassDriveBinding, values: Seq<Value>, r: GlassDrive) -> bool {
    &&& match d.translation {
        Some(b) => gives_point(b, values, Point { x: r.x, y: r.y }),
        None => r.x == num(0) && r.y == num(0),
    }
    &&& match d.pressure {
        Some(b) => gives_number(b, values, r.pressure),
        None => r.pressure == num(0),
    }
    &&& match d.twist {
        Some(b) => gives_number(b, values, r.twist),
        None => r.twist == num(0),
    }
}

/// A drive has the translation, the pressure and the twist that its bindings give.
pub proof fn drives_hold_their_parts(
    d: GlassDriveBinding,
    values: Seq<Value>,
    at: int,
    r: GlassDrive,
)
    ensures
        drive_bound(d, values, at) == Ok::<GlassDrive, LayoutFault>(r) <==> drives(d, values, r),
{
    if drive_bound(d, values, at) is Ok {
        let o = drive_bound(d, values, at)->Ok_0;
        if drives(d, values, r) {
            match d.translation {
                Some(b) => {
                    assert(Point { x: o.x, y: o.y } == Point { x: r.x, y: r.y });
                },
                None => {},
            }
            assert(o.x == r.x && o.y == r.y);
        }
    }
}

/// Light has the direction, the elevation, the intensity and the space that its bindings give.
pub proof fn light_holds_its_parts(
    e: GlassEnvironmentBinding,
    values: Seq<Value>,
    at: int,
    r: GlassLayoutEnvironment,
)
    ensures
        environment_bound(e, values, at) == Ok::<GlassLayoutEnvironment, LayoutFault>(r) <==> {
            &&& gives_point(e.light.direction, values, r.light_direction)
            &&& gives_number(e.light.elevation, values, r.light_elevation)
            &&& gives_number(e.light.intensity, values, r.light_intensity)
            &&& r.light_space == e.light.space
        },
{
}

/// The motion of a field has its character and its settling time, and the intensity and drive that its
/// bindings give.
pub proof fn field_motion_holds_its_parts(
    m: GlassFieldMotionBinding,
    values: Seq<Value>,
    at: int,
    r: GlassLayoutMotion,
)
    ensures
        field_motion_bound(m, values, at) == Ok::<GlassLayoutMotion, LayoutFault>(r) <==> {
            &&& r.character == m.character
            &&& r.settle_seconds == m.settle
            &&& gives_number(m.intensity, values, r.intensity)
            &&& drives(m.drive, values, r.drive)
        },
{
    if field_motion_bound(m, values, at) is Ok {
        drives_hold_their_parts(
            m.drive,
            values,
            at,
            field_motion_bound(m, values, at)->Ok_0.drive,
        );
    }
    drives_hold_their_parts(m.drive, values, at, r.drive);
}

/// A surface on its own moves by its bindings, fluidly and within 0.32 seconds where it does not say.
pub proof fn own_motion_holds_its_parts<N: Fn(&GlassSum) -> Scalar>(
    sums: N,
    m: GlassSurfaceMotionBinding,
    values: Seq<Value>,
    at: int,
    r: GlassLayoutMotion,
)
    ensures
        motion_given(sums, None, m, values, at, Ok(r)) <==> {
            &&& r.character == if m.character is Some { m.character->0 } else { GlassCharacter::Fluid }
            &&& r.settle_seconds == if m.settle is Some {
                m.settle->0
            } else {
                num(0x3fd4_7ae1_47ae_147b)
            }
            &&& gives_number(m.intensity, values, r.intensity)
            &&& drives(m.drive, values, r.drive)
        },
{
    drives_hold_their_parts(m.drive, values, at, r.drive);
}

/// A member of a field moves in its character and settles as it does; their intensities multiply, from 0
/// to 1, and their drives add up.
pub proof fn members_move_with_their_field<N: Fn(&GlassSum) -> Scalar>(
    sums: N,
    field: GlassLayoutMotion,
    m: GlassSurfaceMotionBinding,
    values: Seq<Value>,
    at: int,
    intensity: Scalar,
    drive: GlassDrive,
    r: GlassLayoutMotion,
)
    requires
        gives_number(m.intensity, values, intensity),
        drives(m.drive, values, drive),
        motion_given(sums, Some(field), m, values, at, Ok(r)),
    ensures
        r.character == field.character,
        r.settle_seconds == field.settle_seconds,
        exists|q: Scalar| #[trigger]
            call_ensures(
                sums,
                (&GlassSum::Relative { field: field.intensity, member: intensity },),
                q,
            ) && r.intensity == if q.lt_spec(num(0)) {
                num(0)
            } else if num(0x3ff0_0000_0000_0000).lt_spec(q) {
                num(0x3ff0_0000_0000_0000)
            } else {
                q
            },
        call_ensures(sums, (&GlassSum::Total { a: field.drive.x, b: drive.x },), r.drive.x),
        call_ensures(sums, (&GlassSum::Total { a: field.drive.y, b: drive.y },), r.drive.y),
        call_ensures(
            sums,
            (&GlassSum::Total { a: field.drive.pressure, b: drive.pressure },),
            r.drive.pressure,
        ),
        call_ensures(
            sums,
            (&GlassSum::Total { a: field.drive.twist, b: drive.twist },),
            r.drive.twist,
        ),
{
    drives_hold_their_parts(m.drive, values, at, drive);
}

/// A field is named by its node and its identifier, and holds what its bindings give.
pub proof fn fields_hold_their_parts(
    a: SceneArtifact,
    transforms: Seq<Entry<Affine>>,
    key: Seq<char>,
    field: GlassFieldNode,
    values: Seq<Value>,
    at: int,
    r: Field,
)
    requires
        field_bound(a, transforms, key, field, values, at) == Ok::<Field, LayoutFault>(r),
    ensures
        r.node_key == key,
        r.field_id == field.field_id@,
        r.merge_distance == field.merge.distance,
        gives_number(field.material.clarity, values, r.material.clarity),
        gives_number(field.material.depth, values, r.material.depth),
        gives_color(field.material.tint, values, r.material.tint),
        gives_point(field.environment.light.direction, values, r.environment.light_direction),
        gives_number(field.environment.light.elevation, values, r.environment.light_elevation),
        gives_number(field.environment.light.intensity, values, r.environment.light_intensity),
        r.environment.light_space == field.environment.light.space,
        r.motion.character == field.motion.character,
        r.motion.settle_seconds == field.motion.settle,
        gives_number(field.motion.intensity, values, r.motion.intensity),
        drives(field.motion.drive, values, r.motion.drive),
        r.owner_to_viewport == owner_from(a, transforms, at, a.nodes@.len()),
{
    drives_hold_their_parts(field.motion.drive, values, at, r.motion.drive);
}

/// What owns a node is the transform of the last node that names it as a child, in rows; where that has
/// none, what owns that node; without any, nothing moves.
pub proof fn owners_stand_above(
    a: SceneArtifact,
    transforms: Seq<Entry<Affine>>,
    at: int,
    fuel: nat,
)
    requires
        fuel > 0,
    ensures
        ({
            let owner = owner_from(a, transforms, at, fuel);
            match last_parent(a, at, a.nodes@.len()) {
                None => {
                    &&& owner.top == (num(0x3ff0_0000_0000_0000), num(0), num(0))
                    &&& owner.middle == (num(0), num(0x3ff0_0000_0000_0000), num(0))
                    &&& owner.bottom == (num(0), num(0), num(0x3ff0_0000_0000_0000))
                },
                Some(p) => match find(transforms, a.nodes@[p as int].key@) {
                    Some(t) => {
                        &&& owner.top == (t.a, t.c, t.x)
                        &&& owner.middle == (t.b, t.d, t.y)
                        &&& owner.bottom == (num(0), num(0), num(0x3ff0_0000_0000_0000))
                    },
                    None => owner == owner_from(a, transforms, p as int, (fuel - 1) as nat),
                },
            }
        }),
{
}

/// Capsules and circles are round: half of the shorter side, with no points of their own. A rectangle has
/// the radius that its binding gives.
pub proof fn outlines_follow_their_shape<
    N: Fn(&GlassSum) -> Scalar,
    P: Fn(&SegmentGeometry, usize) -> Point,
>(
    sums: N,
    curve: P,
    shape: GlassShapeBinding,
    values: Seq<Value>,
    at: int,
    node: Seq<char>,
    rect: Rect,
    limit: nat,
    kind: GlassShapeKind,
    radius: Scalar,
    points: Seq<Point>,
)
    requires
        outline_given(sums, curve, shape, values, at, node, rect, limit, Ok((kind, radius, points))),
    ensures
        ({
            let side = if rect.height.lt_spec(rect.width) { rect.height } else { rect.width };
            let half = GlassSum::Product { a: side, b: num(0x3fe0_0000_0000_0000) };
            match shape {
                GlassShapeBinding::Capsule => kind == GlassShapeKind::Capsule && points.len() == 0
                    && call_ensures(sums, (&half,), radius),
                GlassShapeBinding::Circle => kind == GlassShapeKind::Circle && points.len() == 0
                    && call_ensures(sums, (&half,), radius),
                GlassShapeBinding::ContinuousRect { radius: b } => kind
                    == GlassShapeKind::ContinuousRect && points.len() == 0 && gives_number(
                    b,
                    values,
                    radius,
                ),
                GlassShapeBinding::Path { .. } => kind == GlassShapeKind::Path && radius == num(0)
                    && points.len() <= limit,
            }
        }),
{
}

/// A surface is named by its node, its identifier and its field; its box lies at the origin with the size
/// of its layout box; a culled plane hides it; the rest is what its bindings give.
pub proof fn surfaces_hold_their_parts(
    values: Seq<Value>,
    planes: Seq<Entry<PlacedPlane>>,
    rect: Rect,
    key: Seq<char>,
    glass: GlassNode,
    member: Option<Seq<char>>,
    field: Option<Field>,
    at: int,
    p: SurfaceParts,
    s: Surface,
)
    requires
        assembled(values, planes, rect, key, glass, member, field, at, p) == Ok::<
            Surface,
            LayoutFault,
        >(s),
    ensures
        s.node_key == key,
        s.surface_id == glass.surface_id@,
        s.field_id == member,
        s.local_rect.x == num(0) && s.local_rect.y == num(0),
        s.local_rect.width == rect.width && s.local_rect.height == rect.height,
        p.outline == Ok::<(GlassShapeKind, Scalar, Seq<Point>), LayoutFault>(
            (s.shape, s.radius, s.path_points),
        ),
        p.viewport == Ok::<Homography, LayoutFault>(s.viewport_matrix),
        p.motion == Ok::<GlassLayoutMotion, LayoutFault>(s.motion),
        p.luma == Ok::<Option<Scalar>, LayoutFault>(s.foreground.luma),
        s.foreground.bounds == p.bounds,
        s.foreground.tone == glass.foreground.tone,
        gives_number(glass.foreground.protection, values, s.foreground.protection),
        match field {
            Some(f) => s.owner_to_viewport == f.owner_to_viewport,
            None => {
                &&& s.owner_to_viewport.top == (p.transform.a, p.transform.c, p.transform.x)
                &&& s.owner_to_viewport.middle == (p.transform.b, p.transform.d, p.transform.y)
                &&& s.owner_to_viewport.bottom == (num(0), num(0), num(0x3ff0_0000_0000_0000))
            },
        },
        ({
            let plane = find(planes, key);
            if plane is Some && plane->0.hidden {
                s.presence == num(0)
            } else {
                gives_number(glass.presence, values, s.presence)
            }
        }),
        match glass.material {
            Some(m) => s.material is Some && gives_number(m.clarity, values, s.material->0.clarity)
                && gives_number(m.depth, values, s.material->0.depth) && gives_color(
                m.tint,
                values,
                s.material->0.tint,
            ),
            None => s.material is None,
        },
        match glass.environment {
            Some(e) => s.environment is Some && gives_point(
                e.light.direction,
                values,
                s.environment->0.light_direction,
            ) && gives_number(e.light.elevation, values, s.environment->0.light_elevation)
                && gives_number(e.light.intensity, values, s.environment->0.light_intensity)
                && s.environment->0.light_space == e.light.space,
            None => s.environment is None,
        },
{
}

/// A surface that is no projected plane maps the unit square to its box under its transform: the first
/// column is its width, the second its height, the third its corner.
pub proof fn flat_surfaces_span_their_box<
    N: Fn(&GlassSum) -> Scalar,
    Q: Fn(&Quad) -> Option<Homography>,
>(
    sums: N,
    project: Q,
    planes: Seq<Entry<PlacedPlane>>,
    key: Seq<char>,
    t: Affine,
    rect: Rect,
    h: Homography,
)
    requires
        viewport_given(sums, project, planes, key, t, rect, Ok(h)),
    ensures
        ({
            let plane = find(planes, key);
            let (a, c, x) = h.top;
            let (b, d, y) = h.middle;
            if plane is Some && plane->0.project {
                call_ensures(project, (&plane->0.quad,), Some(h))
            } else {
                &&& call_ensures(sums, (&GlassSum::Product { a: t.a, b: rect.width },), a)
                &&& call_ensures(sums, (&GlassSum::Product { a: t.b, b: rect.width },), b)
                &&& call_ensures(sums, (&GlassSum::Product { a: t.c, b: rect.height },), c)
                &&& call_ensures(sums, (&GlassSum::Product { a: t.d, b: rect.height },), d)
                &&& x == t.x && y == t.y
                &&& h.bottom == (num(0), num(0), num(0x3ff0_0000_0000_0000))
            }
        }),
{
}

/// The last field of an identifier is the field of its members.
pub proof fn members_find_their_field(fields: Seq<Field>, k: int)
    requires
        0 <= k < fields.len(),
        forall|j: int| k < j < fields.len() ==> (#[trigger] fields[j]).field_id != fields[k].field_id,
    ensures
        field_around(fields, Some(fields[k].field_id)) == Some(fields[k]),
        field_around(fields, None) is None,
{
    last_field(fields, k, fields.len());
}

proof fn last_field(fields: Seq<Field>, k: int, n: nat)
    requires
        0 <= k < n <= fields.len(),
        forall|j: int| k < j < n ==> (#[trigger] fields[j]).field_id != fields[k].field_id,
    ensures
        crate::glass_frame::field_named(fields, fields[k].field_id, n) == Some(fields[k]),
    decreases n,
{
    if k < n - 1 {
        last_field(fields, k, (n - 1) as nat);
    }
}

/// A node paints in front of a surface where it has content, or a background, border, outline or shadow.
pub proof fn painted_nodes_have_content_or_a_box(node: SceneNode)
    ensures
        node_paints(node) <==> match node.kind {
            NodeKind::Text { .. } => true,
            NodeKind::Path { .. } => true,
            NodeKind::GeometryBatch { .. } => true,
            NodeKind::Image { .. } => true,
            NodeKind::ShaderLayer { .. } => true,
            NodeKind::Scene3D { .. } => true,
            NodeKind::Video { .. } => true,
            NodeKind::MathFormula { .. } => true,
            NodeKind::Glass(_) => true,
            _ => has_box_paint(node.styles@),
        },
{
    if has_box_paint(node.styles@) {
        let i = choose|i: int|
            0 <= i < node.styles@.len() && is_box_paint((#[trigger] node.styles@[i]).property@);
        assert(crate::foreground::paints_property(node.styles@[i].property@));
    }
    if node_paints(node) && !crate::foreground::paints_kind(node.kind) {
        let i = choose|i: int|
            0 <= i < node.styles@.len() && crate::foreground::paints_property(
                #[trigger] node.styles@[i].property@,
            );
        assert(is_box_paint(node.styles@[i].property@));
    }
}

/// Whether a style paints the box of its node.
pub open spec fn has_box_paint(styles: Seq<StyleBinding>) -> bool {
    exists|i: int| 0 <= i < styles.len() && is_box_paint((#[trigger] styles[i]).property@)
}

pub open spec fn is_box_paint(p: Seq<char>) -> bool {
    ||| p == "background"@
    ||| p == "border"@
    ||| p == "outline"@
    ||| p == "box-shadow"@
    ||| begins(p, "background-"@)
    ||| begins(p, "border-"@)
}

/// Whether a property gives a color of its node: that of text, background or border.
pub open spec fn is_color(p: Seq<char>) -> bool {
    ||| p == "color"@
    ||| p == "background-color"@
    ||| p == "border-color"@
    ||| begins(p, "border-"@) && crate::text::ends(p, "-color"@)
}

/// The styles of a node give their colors in order; what is no color gives none.
pub proof fn styles_give_their_colors(
    styles: Seq<StyleBinding>,
    values: Seq<Value>,
    at: int,
    n: nat,
    before: Seq<Rgba>,
    v: Value,
)
    requires
        n < styles.len(),
        style_colors(styles, values, at, n) == Ok::<Seq<Rgba>, LayoutFault>(before),
        style_valued(styles[n as int].value, values, at) == Ok::<Value, LayoutFault>(v),
    ensures
        style_colors(styles, values, at, 0) == Ok::<Seq<Rgba>, LayoutFault>(seq![]),
        style_colors(styles, values, at, n + 1) == Ok::<Seq<Rgba>, LayoutFault>(
            match v {
                Value::Color(c) if is_color(styles[n as int].property@) => before.push(c),
                _ => before,
            },
        ),
{
}

/// Whether a paint has a color at a place: a solid one its own, a gradient that of its stop.
pub open spec fn shows_color(p: Painted, i: int, c: Rgba) -> bool {
    match p {
        Painted::Solid(x) => i == 0 && c == x,
        Painted::Linear(_, _, stops, _) => 0 <= i < stops.len() && stops[i].1 == c,
        Painted::Radial(_, _, stops, _) => 0 <= i < stops.len() && stops[i].1 == c,
        Painted::Conic(_, _, stops, _) => 0 <= i < stops.len() && stops[i].1 == c,
    }
}

/// Text and formulas have the colors of their styles, or are black; a batch adds its fills, and those that
/// it fades to where it does.
pub proof fn nodes_show_their_colors(
    node: SceneNode,
    values: Seq<Value>,
    at: int,
    styled: Seq<Rgba>,
)
    requires
        style_colors(node.styles@, values, at, node.styles@.len()) == Ok::<Seq<Rgba>, LayoutFault>(
            styled,
        ),
    ensures
        match node.kind {
            NodeKind::Text { .. } | NodeKind::MathFormula { .. } => node_colors(node, values, at)
                == Ok::<Seq<Rgba>, LayoutFault>(
                if styled.len() == 0 {
                    seq![Rgba { r: 0, g: 0, b: 0, a: 255 }]
                } else {
                    styled
                },
            ),
            NodeKind::GeometryBatch { batch } => node_colors(node, values, at) == Ok::<
                Seq<Rgba>,
                LayoutFault,
            >(
                if batch.fill_field is Some {
                    styled + batch.fills@ + batch.fill_targets@
                } else {
                    styled + batch.fills@
                },
            ),
            NodeKind::Path { .. } => true,
            _ => node_colors(node, values, at) == Ok::<Seq<Rgba>, LayoutFault>(styled),
        },
{
    match node.kind {
        NodeKind::GeometryBatch { batch } => {
            assert(styled + batch.fills@ + Seq::<Rgba>::empty() =~= styled + batch.fills@);
        },
        _ => {},
    }
}

/// A filled path adds the color of its fill behind those of its styles, one for each stop.
pub proof fn paths_show_their_fill(
    node: SceneNode,
    values: Seq<Value>,
    at: int,
    styled: Seq<Rgba>,
    paint: Painted,
    colors: Seq<Rgba>,
    i: int,
    c: Rgba,
)
    requires
        style_colors(node.styles@, values, at, node.styles@.len()) == Ok::<Seq<Rgba>, LayoutFault>(
            styled,
        ),
        node.kind is Path,
        node.kind->Path_stroke is None,
        node.kind->Path_fill is Some,
        paint_bound(node.kind->Path_fill->0, values, at, node.key@) == Ok::<Painted, LayoutFault>(
            paint,
        ),
        node_colors(node, values, at) == Ok::<Seq<Rgba>, LayoutFault>(colors),
    ensures
        shows_color(paint, i, c) <==> 0 <= i < colors.len() - styled.len() && colors[styled.len() + i]
            == c,
        colors.take(styled.len() as int) == styled,
{
    assert(colors.take(styled.len() as int) =~= styled);
}

/// The nodes in front of a surface are visited from the last pending one, which is replaced by its
/// children unless it is a surface itself.
pub proof fn visits_go_down_from_the_last(
    a: SceneArtifact,
    pending: Seq<usize>,
    at: usize,
    fuel: nat,
)
    ensures
        visited(a, pending, 0) == Seq::<usize>::empty(),
        visited(a, seq![], fuel) == Seq::<usize>::empty(),
        at < a.nodes@.len() && a.nodes@[at as int].kind is Glass ==> visited(
            a,
            pending.push(at),
            fuel + 1,
        ) == seq![at] + visited(a, pending, fuel),
        at < a.nodes@.len() && !(a.nodes@[at as int].kind is Glass) ==> visited(
            a,
            pending.push(at),
            fuel + 1,
        ) == seq![at] + visited(a, pending + children_at(a, at as int), fuel),
{
    assert(pending.push(at).drop_last() =~= pending);
    assert(pending + Seq::<usize>::empty() =~= pending);
}

/// What is gathered of a visited node is its box and its colors, where it has any.
pub proof fn colors_are_gathered_with_their_box(
    a: SceneArtifact,
    values: Seq<Value>,
    boxes: Seq<Entry<Rect>>,
    order: Seq<usize>,
    n: nat,
    before: Seq<(Option<Rect>, Seq<Rgba>)>,
    colors: Seq<Rgba>,
)
    requires
        n < order.len(),
        order[n as int] < a.nodes@.len(),
        gathered(a, values, boxes, order, n) == Ok::<Seq<(Option<Rect>, Seq<Rgba>)>, LayoutFault>(
            before,
        ),
        node_colors(a.nodes@[order[n as int] as int], values, order[n as int] as int) == Ok::<
            Seq<Rgba>,
            LayoutFault,
        >(colors),
    ensures
        gathered(a, values, boxes, order, 0) == Ok::<Seq<(Option<Rect>, Seq<Rgba>)>, LayoutFault>(
            seq![],
        ),
        gathered(a, values, boxes, order, n + 1) == Ok::<
            Seq<(Option<Rect>, Seq<Rgba>)>,
            LayoutFault,
        >(
            if colors.len() == 0 {
                before
            } else {
                before.push((find(boxes, a.nodes@[order[n as int] as int].key@), colors))
            },
        ),
{
}

/// The bounds of the foreground grow by the placed box of every node that paints: to that box where they
/// had none, to both where they had, and not at all by a box without an area.
pub proof fn bounds_grow_by_painted_boxes<R: Fn(&RectTask) -> Option<Rect>>(
    rects: R,
    a: SceneArtifact,
    boxes: Seq<Entry<Rect>>,
    transforms: Seq<Entry<Affine>>,
    owner: Homography,
    at: usize,
    before: Option<Rect>,
    after: Option<Rect>,
)
    requires
        at < a.nodes@.len(),
        bounds_step(rects, a, boxes, transforms, owner, at, before, Some(after)),
    ensures
        ({
            let node = a.nodes@[at as int];
            let layout = find(boxes, node.key@);
            let transform = find(transforms, node.key@);
            if !node_paints(node) || layout is None {
                after == before
            } else {
                exists|b: Rect| #[trigger]
                    call_ensures(
                        rects,
                        (&RectTask::Placed { layout: layout->0, transform, owner },),
                        Some(b),
                    ) && if !(num(0).lt_spec(b.width) && num(0).lt_spec(b.height)) {
                        after == before
                    } else if before is None {
                        after == Some(b)
                    } else {
                        after is Some && call_ensures(
                            rects,
                            (&RectTask::Joined { first: before->0, second: b },),
                            after,
                        )
                    }
            }
        }),
{
    let node = a.nodes@[at as int];
    let layout = find(boxes, node.key@);
    if node_paints(node) && layout is Some {
        let task = RectTask::Placed { layout: layout->0, transform: find(transforms, node.key@), owner };
        let placed = choose|placed: Option<Rect>| #[trigger]
            call_ensures(rects, (&task,), placed) && crate::foreground::grows(
                rects,
                placed,
                before,
                Some(after),
            );
        assert(placed is Some);
        let b = placed->0;
        assert(call_ensures(rects, (&task,), Some(b)));
    }
}

/// Glass needs a box with an area.
pub proof fn glass_needs_an_area<
    N: Fn(&GlassSum) -> Scalar,
    Q: Fn(&Quad) -> Option<Homography>,
    P: Fn(&SegmentGeometry, usize) -> Point,
    R: Fn(&RectTask) -> Option<Rect>,
    L: Fn(&Vec<ForegroundColors>) -> Option<Scalar>,
>(
    host: GlassHost<N, Q, P, R, L>,
    a: SceneArtifact,
    values: Seq<Value>,
    placed: Placed,
    fields: Seq<Field>,
    member: Option<Seq<char>>,
    glass: GlassNode,
    at: int,
    s: Surface,
)
    requires
        surface_given(host, a, values, placed, fields, member, glass, at, Ok(s)),
    ensures
        ({
            let layout = find(placed.boxes@, a.nodes@[at].key@);
            &&& layout is Some
            &&& num(0).lt_spec(layout->0.width)
            &&& num(0).lt_spec(layout->0.height)
            &&& s.local_rect.width == layout->0.width
            &&& s.local_rect.height == layout->0.height
            &&& s.node_key == a.nodes@[at].key@
            &&& s.surface_id == glass.surface_id@
            &&& s.field_id == member
        }),
{
}

} // verus!
