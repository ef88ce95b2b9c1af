//! When glass is sound: what a surface and a field have to say of themselves, and within which bounds.

use vstd::prelude::*;

use crate::artifact::{NodeKind, NumberValue, PointValue, SceneArtifact, SceneNode, StyleBinding, StyleValue};
use crate::continuity::ranks;
use crate::expr::ExprId;
use crate::glass::{
    GlassEnvironmentBinding, GlassFieldNode, GlassForegroundTone, GlassNode, GlassShapeBinding,
};
use crate::lineage::{parent_from, unknown_kind};
use crate::scalar::{num, Scalar};
use crate::schema::{
    field_findings, glass_findings, last_field, last_surface, paints_or_reorders, paints_shell,
    place_roots, some_discrete, track_roots,
};
use crate::text::begins;

verus! {

/// Whether a number is an expression, or lies between 0 and 1.
pub open spec fn is_share(v: NumberValue) -> bool {
    match v {
        NumberValue::Static { value } => value.finite() && 0 <= value.order() <= 0x3ff0_0000_0000_0000,
        NumberValue::Expr { .. } => true,
    }
}

/// Whether a settling time lies between 0.08 and 1.2 seconds.
pub open spec fn is_pace(x: Scalar) -> bool {
    x.finite() && 0x3fb4_7ae1_47ae_147b <= x.order() <= 0x3ff3_3333_3333_3333
}

/// Whether a light points somewhere, with an elevation and an intensity between 0 and 1.
pub open spec fn is_light(e: GlassEnvironmentBinding, length: Scalar) -> bool {
    &&& match e.light.direction {
        PointValue::Static { value } => value.x.finite() && value.y.finite() && (length.is_nan_spec()
            || length.order() > 0x3cb0_0000_0000_0000),
        PointValue::Expr { .. } => true,
    }
    &&& is_share(e.light.elevation)
    &&& is_share(e.light.intensity)
}

/// Whether a surface records the field that it stands in.
pub open spec fn knows_its_field(glass: GlassNode, actual: Option<Seq<char>>) -> bool {
    match glass.field_id {
        Some(id) => actual == Some(id@),
        None => actual is None,
    }
}

/// Whether a surface has what it has to have: of its own where it stands alone, of its field where it does
/// not.
pub open spec fn owns_its_parts(glass: GlassNode) -> bool {
    if glass.field_id is Some {
        &&& glass.material is None
        &&& glass.motion.character is None
        &&& glass.motion.settle is None
        &&& glass.environment is None
    } else {
        glass.material is Some && glass.environment is Some
    }
}

/// Whether what a surface says of itself lies within its bounds.
pub open spec fn stays_in_bounds(glass: GlassNode, length: Scalar) -> bool {
    &&& glass.environment is Some ==> is_light(glass.environment->0, length)
    &&& glass.motion.settle is Some ==> is_pace(glass.motion.settle->0)
    &&& is_share(glass.presence)
    &&& is_share(glass.motion.intensity)
    &&& is_share(glass.foreground.protection)
    &&& glass.material is Some ==> is_share(glass.material->0.clarity) && is_share(
        glass.material->0.depth,
    )
    &&& match glass.shape {
        GlassShapeBinding::ContinuousRect { radius: NumberValue::Static { value } } => value.finite()
            && value.order() >= 0,
        _ => true,
    }
}

/// Whether a surface asks for a tone that cannot be found: an automatic one, with protection, in front of
/// colors that the scene does not tell.
pub open spec fn asks_in_vain(glass: GlassNode, unknown: bool) -> bool {
    &&& unknown
    &&& glass.foreground.tone == GlassForegroundTone::Auto
    &&& match glass.foreground.protection {
        NumberValue::Static { value } => !value.eq_spec(num(0)),
        NumberValue::Expr { .. } => true,
    }
}

/// A surface is sound exactly where no surface before it has its identifier, it knows its field, owns its
/// parts, stays in bounds, asks for no tone in vain, and nothing that drives it goes in steps.
#[verifier::rlimit(60)]
pub proof fn sound_surfaces_keep_the_rules(
    a: SceneArtifact,
    at: nat,
    glass: GlassNode,
    actual: Option<Seq<char>>,
    length: Scalar,
    unknown: bool,
)
    requires
        at < a.nodes@.len(),
    ensures
        glass_findings(a, at, glass, actual, length, unknown).len() == 0 <==> {
            &&& last_surface(a.nodes@, glass.surface_id@, at) is None
            &&& knows_its_field(glass, actual)
            &&& owns_its_parts(glass)
            &&& stays_in_bounds(glass, length)
            &&& !asks_in_vain(glass, unknown)
            &&& !some_discrete(
                ranks(a.exprs@, a.exprs@.len()),
                track_roots(a.nodes@[at as int], glass),
            )
        },
{
    let identity = crate::schema::identity_findings(a, at, glass, actual);
    let owned = crate::schema::ownership_findings(at, glass);
    let bound = crate::schema::binding_findings(at, glass, length, unknown);
    let driven = crate::schema::track_findings(a, at, glass);
    identities_are_checked(a, at, glass, actual);
    bindings_are_checked(at, glass, length, unknown);
    ownership_is_checked(at, glass);
    tracks_are_checked(a, at, glass);
    lengths_are_summed(identity, owned, bound, driven);
    assert(glass_findings(a, at, glass, actual, length, unknown) == identity + owned + bound + driven);
}

proof fn lengths_are_summed<T>(a: Seq<T>, b: Seq<T>, c: Seq<T>, d: Seq<T>)
    ensures
        (a + b + c + d).len() == a.len() + b.len() + c.len() + d.len(),
{
}

proof fn ownership_is_checked(at: nat, glass: GlassNode)
    ensures
        crate::schema::ownership_findings(at, glass).len() == 0 <==> owns_its_parts(glass),
{
}

proof fn tracks_are_checked(a: SceneArtifact, at: nat, glass: GlassNode)
    ensures
        crate::schema::track_findings(a, at, glass).len() == 0 <==> !some_discrete(
            ranks(a.exprs@, a.exprs@.len()),
            track_roots(a.nodes@[at as int], glass),
        ),
{
}

proof fn identities_are_checked(
    a: SceneArtifact,
    at: nat,
    glass: GlassNode,
    actual: Option<Seq<char>>,
)
    ensures
        crate::schema::identity_findings(a, at, glass, actual).len() == 0 <==> last_surface(
            a.nodes@,
            glass.surface_id@,
            at,
        ) is None && knows_its_field(glass, actual),
{
}

proof fn shares_are_checked(name: Seq<char>, v: NumberValue, path: Seq<char>)
    ensures
        crate::schema::unit_findings(name, v, path).len() == 0 <==> is_share(v),
{
}

proof fn lights_are_checked(e: GlassEnvironmentBinding, length: Scalar, path: Seq<char>)
    ensures
        crate::schema::environment_findings(e, length, path).len() == 0 <==> is_light(e, length),
{
    shares_are_checked("light elevation"@, e.light.elevation, path + "/light/elevation"@);
    shares_are_checked("light intensity"@, e.light.intensity, path + "/light/intensity"@);
}

proof fn bindings_are_checked(at: nat, glass: GlassNode, length: Scalar, unknown: bool)
    ensures
        crate::schema::binding_findings(at, glass, length, unknown).len() == 0 <==> stays_in_bounds(
            glass,
            length,
        ) && !asks_in_vain(glass, unknown),
{
    let path = crate::schema::node_path(at);
    let light = crate::schema::light_findings(at, glass, length);
    let pace = crate::schema::pace_findings(at, glass);
    let presence = crate::schema::unit_findings("presence"@, glass.presence, path + "/kind/presence"@);
    let tone = crate::schema::tone_findings(at, glass, unknown);
    let intensity = crate::schema::unit_findings(
        "intensity"@,
        glass.motion.intensity,
        path + "/kind/motion/intensity"@,
    );
    let protection = crate::schema::unit_findings(
        "protection"@,
        glass.foreground.protection,
        path + "/kind/foreground/protection"@,
    );
    let material = crate::schema::material_findings(at, glass);
    let radius = crate::schema::radius_findings(at, glass);
    if glass.environment is Some {
        lights_are_checked(glass.environment->0, length, path + "/kind/environment"@);
    }
    shares_are_checked("presence"@, glass.presence, path + "/kind/presence"@);
    shares_are_checked(
        "intensity"@,
        glass.motion.intensity,
        path + "/kind/motion/intensity"@,
    );
    shares_are_checked(
        "protection"@,
        glass.foreground.protection,
        path + "/kind/foreground/protection"@,
    );
    if glass.material is Some {
        shares_are_checked(
            "clarity"@,
            glass.material->0.clarity,
            path + "/kind/material/clarity"@,
        );
        shares_are_checked("depth"@, glass.material->0.depth, path + "/kind/material/depth"@);
    }
    assert(tone.len() == 0 <==> !asks_in_vain(glass, unknown));
    assert(pace.len() == 0 <==> (glass.motion.settle is Some ==> is_pace(glass.motion.settle->0)));
    assert(material.len() == 0 <==> (glass.material is Some ==> is_share(glass.material->0.clarity)
        && is_share(glass.material->0.depth)));
    assert(crate::schema::binding_findings(at, glass, length, unknown) == light + pace + presence + tone
        + intensity + protection + material + radius);
    lengths_add_up(light, pace, presence, tone, intensity, protection, material, radius);
}

proof fn lengths_add_up<T>(
    a: Seq<T>,
    b: Seq<T>,
    c: Seq<T>,
    d: Seq<T>,
    e: Seq<T>,
    f: Seq<T>,
    g: Seq<T>,
    h: Seq<T>,
)
    ensures
        (a + b + c + d + e + f + g + h).len() == a.len() + b.len() + c.len() + d.len() + e.len()
            + f.len() + g.len() + h.len(),
{
}

/// A field is sound exactly where no field before it has its identifier, it settles in time, merges within
/// 1 to 128 pixels, and has a light.
pub proof fn sound_fields_keep_the_rules(
    a: SceneArtifact,
    at: nat,
    field: GlassFieldNode,
    length: Scalar,
)
    ensures
        field_findings(a, at, field, length).len() == 0 <==> {
            &&& last_field(a.nodes@, field.field_id@, at) is None
            &&& is_pace(field.motion.settle)
            &&& field.merge.distance.finite()
            &&& 0x3ff0_0000_0000_0000 <= field.merge.distance.order() <= 0x4060_0000_0000_0000
            &&& is_light(field.environment, length)
        },
{
    lights_are_checked(
        field.environment,
        length,
        crate::schema::node_path(at) + "/kind/environment"@,
    );
}

/// Whether a node is a surface of this identifier.
pub open spec fn is_surface(node: SceneNode, id: Seq<char>) -> bool {
    match node.kind {
        NodeKind::Glass(g) => g.surface_id@ == id,
        _ => false,
    }
}

/// Whether a node is a field of this identifier.
pub open spec fn is_field_of(node: SceneNode, id: Seq<char>) -> bool {
    match node.kind {
        NodeKind::GlassField(f) => f.field_id@ == id,
        _ => false,
    }
}

/// An identifier was used before exactly where a node before has it, and the last such node is told.
pub proof fn identifiers_are_used_once(nodes: Seq<SceneNode>, id: Seq<char>, n: nat)
    requires
        n <= nodes.len() <= usize::MAX,
    ensures
        match last_surface(nodes, id, n) {
            Some(k) => k < n && is_surface(nodes[k as int], id) && forall|j: int|
                k < j < n ==> !is_surface(#[trigger] nodes[j], id),
            None => forall|j: int| 0 <= j < n ==> !is_surface(#[trigger] nodes[j], id),
        },
        match last_field(nodes, id, n) {
            Some(k) => k < n && is_field_of(nodes[k as int], id) && forall|j: int|
                k < j < n ==> !is_field_of(#[trigger] nodes[j], id),
            None => forall|j: int| 0 <= j < n ==> !is_field_of(#[trigger] nodes[j], id),
        },
    decreases n,
{
    if n > 0 {
        identifiers_are_used_once(nodes, id, (n - 1) as nat);
    }
}

/// Whether a style places its node.
pub open spec fn is_place(p: Seq<char>) -> bool {
    ||| p == "left"@
    ||| p == "top"@
    ||| p == "width"@
    ||| p == "height"@
    ||| p == "transform"@
    ||| p == "translate"@
    ||| p == "rotate"@
    ||| p == "scale"@
}

/// What places a node drives its track: the expressions of its placing styles, in order.
pub proof fn placing_styles_drive_tracks(styles: Seq<StyleBinding>, n: nat)
    requires
        n < styles.len(),
    ensures
        place_roots(styles, 0).len() == 0,
        match styles[n as int].value {
            StyleValue::Expr { expr } => if is_place(styles[n as int].property@) {
                place_roots(styles, n + 1) == place_roots(styles, n).push(expr)
            } else {
                place_roots(styles, n + 1) == place_roots(styles, n)
            },
            _ => place_roots(styles, n + 1) == place_roots(styles, n),
        },
{
    let before = place_roots(styles, n);
    assert(before + Seq::<ExprId>::empty() =~= before);
    match styles[n as int].value {
        StyleValue::Expr { expr } => {
            assert(before + seq![expr] =~= before.push(expr));
        },
        _ => {},
    }
}

/// Whether an expression stands in a number or a point.
pub open spec fn stands_in(v: NumberValue, id: ExprId) -> bool {
    v == NumberValue::Expr { expr: id }
}

/// Presence, intensity, drive, material, light and radius drive the track of a surface.
pub proof fn bindings_drive_tracks(node: SceneNode, glass: GlassNode, id: ExprId)
    ensures
        stands_in(glass.presence, id) ==> track_roots(node, glass).contains(id),
        stands_in(glass.motion.intensity, id) ==> track_roots(node, glass).contains(id),
        glass.motion.drive.pressure is Some && stands_in(glass.motion.drive.pressure->0, id)
            ==> track_roots(node, glass).contains(id),
        glass.motion.drive.twist is Some && stands_in(glass.motion.drive.twist->0, id) ==> track_roots(
            node,
            glass,
        ).contains(id),
        glass.motion.drive.translation == Some(PointValue::Expr { expr: id }) ==> track_roots(
            node,
            glass,
        ).contains(id),
        glass.material is Some && (stands_in(glass.material->0.clarity, id) || stands_in(
            glass.material->0.depth,
            id,
        )) ==> track_roots(node, glass).contains(id),
{
    let r1 = crate::schema::number_root(glass.presence);
    let r2 = crate::schema::number_root(glass.motion.intensity);
    let r3 = crate::schema::some_point_root(glass.motion.drive.translation);
    let r4 = crate::schema::some_number_root(glass.motion.drive.pressure);
    let r5 = crate::schema::some_number_root(glass.motion.drive.twist);
    let r6 = crate::schema::material_roots(glass);
    let r7 = crate::schema::light_roots(glass);
    let r8 = crate::schema::shape_roots(glass);
    let r9 = place_roots(node.styles@, node.styles@.len());
    roots_are_kept(r1, r2, id);
    roots_are_kept(r1 + r2, r3, id);
    roots_are_kept(r1 + r2 + r3, r4, id);
    roots_are_kept(r1 + r2 + r3 + r4, r5, id);
    roots_are_kept(r1 + r2 + r3 + r4 + r5, r6, id);
    roots_are_kept(r1 + r2 + r3 + r4 + r5 + r6, r7, id);
    roots_are_kept(r1 + r2 + r3 + r4 + r5 + r6 + r7, r8, id);
    roots_are_kept(r1 + r2 + r3 + r4 + r5 + r6 + r7 + r8, r9, id);
    first_is_there(r1, id);
    first_is_there(r2, id);
    first_is_there(r3, id);
    first_is_there(r4, id);
    first_is_there(r5, id);
    if glass.material is Some {
        let clarity = crate::schema::number_root(glass.material->0.clarity);
        let depth = crate::schema::number_root(glass.material->0.depth);
        first_is_there(clarity, id);
        first_is_there(depth, id);
        roots_are_kept(clarity, depth, id);
    }
}

proof fn first_is_there(r: Seq<ExprId>, id: ExprId)
    ensures
        r.len() > 0 && r[0] == id ==> r.contains(id),
{
}

proof fn roots_are_kept(a: Seq<ExprId>, b: Seq<ExprId>, id: ExprId)
    ensures
        a.contains(id) || b.contains(id) ==> (a + b).contains(id),
{
    if a.contains(id) {
        let i = choose|i: int| 0 <= i < a.len() && a[i] == id;
        assert((a + b)[i] == id);
    }
    if b.contains(id) {
        let i = choose|i: int| 0 <= i < b.len() && b[i] == id;
        assert((a + b)[a.len() + i] == id);
    }
}

/// Whether a style paints the box of its node.
pub open spec fn is_box(p: Seq<char>) -> bool {
    ||| p == "box-shadow"@
    ||| p == "outline"@
    ||| p == "background"@
    ||| p == "border"@
    ||| begins(p, "background-"@)
    ||| begins(p, "border-"@)
}

/// Boxes are painted by shadow, outline, background and border; opacity, filters, blending, clips and masks
/// paint over what lies behind.
pub proof fn paints_are_told_by_name(p: Seq<char>)
    ensures
        paints_shell(p) <==> is_box(p),
        paints_or_reorders(p) <==> {
            ||| is_box(p)
            ||| p == "opacity"@
            ||| p == "filter"@
            ||| p == "mix-blend-mode"@
            ||| p == "backdrop-filter"@
            ||| p == "clip-path"@
            ||| p == "mask"@
            ||| begins(p, "mask-"@)
        },
{
}

/// Pictures, videos, 3D scenes and shaders have colors that the scene does not tell.
pub proof fn pictures_have_unknown_colors(kind: NodeKind)
    ensures
        unknown_kind(kind) <==> kind is Image || kind is Video || kind is Scene3D || kind is ShaderLayer,
{
}

/// The parent of a node is the first one from a place on that names it as a child.
pub proof fn parents_name_their_children(a: SceneArtifact, child: int, k: int, at: int)
    requires
        0 <= at <= k < a.nodes@.len() <= usize::MAX,
        names_child(a, k, child),
        forall|j: int| at <= j < k ==> !(#[trigger] names_child(a, j, child)),
    ensures
        parent_from(a, child, at) == Some(k as usize),
    decreases k - at,
{
    if at < k {
        assert(!names_child(a, at, child));
        parents_name_their_children(a, child, k, at + 1);
    }
}

/// Whether a node names another as its child.
pub open spec fn names_child(a: SceneArtifact, p: int, child: int) -> bool {
    match a.children_of(p) {
        Some(ids) => exists|i: int| 0 <= i < ids.len() && (#[trigger] ids[i]).0 == child,
        None => false,
    }
}

} // verus!
