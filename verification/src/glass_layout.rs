//! Gathers the glass of a frame.

use vstd::prelude::*;

use crate::artifact::{NodeKind, SceneArtifact};
use crate::contours::SegmentGeometry;
use crate::eval::values_of;
use crate::foreground::{ForegroundColors, RectTask};
use crate::glass::GlassFieldId;
use crate::glass_frame::{
    callable, fields_bound, fields_seen, glass_surface, name_of, read_fields, surface_given,
    surfaces_seen, Field, GlassHost, GlassLayoutField, GlassLayoutFrame, GlassLayoutSurface, Placed,
    Quad, Surface,
};
use crate::glass_parts::GlassSum;
use crate::layout_error::{laid, LayoutError, LayoutFault};
use crate::membership::{field_membership, field_name, field_names, found, Membership};
use crate::order::{before, keys_of, sorted_positions, sorts};
use crate::recording::{Homography, Point, Rect};
use crate::scalar::Scalar;
use crate::table::{same_text, Entry};
use crate::value::{MotionValue, Value};

verus! {

/// Whether a scene has glass.
pub open spec fn has_glass(a: SceneArtifact) -> bool {
    exists|i: int|
        0 <= i < a.nodes@.len() && glassy(#[trigger] a.nodes@[i].kind)
}

pub open spec fn glassy(kind: NodeKind) -> bool {
    kind is Glass || kind is GlassField
}

/// Whether a scene has glass.
pub fn any_glass(artifact: &SceneArtifact) -> (r: bool)
    ensures
        r == has_glass(*artifact),
{
    let mut i: usize = 0;
    while i < artifact.nodes.len()
        invariant
            i <= artifact.nodes@.len(),
            forall|k: int| 0 <= k < i ==> !glassy(#[trigger] artifact.nodes@[k].kind),
        decreases artifact.nodes@.len() - i,
    {
        let is_one = match &artifact.nodes[i].kind {
            NodeKind::Glass(_) => true,
            NodeKind::GlassField(_) => true,
            _ => false,
        };
        if is_one {
            assert(glassy(artifact.nodes@[i as int].kind));
            return true;
        }
        i = i + 1;
    }
    false
}

/// Whether a node gives the surface `s`; nothing where it is none.
pub open spec fn node_given<
    N: Fn(&GlassSum) -> Scalar,
    Q: Fn(&Quad) -> Option<Homography>,
    P: Fn(&SegmentGeometry, usize) -> Point,
    R: Fn(&RectTask) -> Option<Rect>,
    L: Fn(&Vec<ForegroundColors>) -> Option<Scalar>,
>(
    host: GlassHost<N, Q, P, R, L>,
    a: SceneArtifact,
    values: Seq<Value>,
    placed: Placed,
    fields: Seq<Field>,
    members: Seq<Option<Seq<char>>>,
    at: int,
    r: Result<Option<Surface>, LayoutFault>,
) -> bool {
    match a.nodes@[at].kind {
        NodeKind::Glass(glass) => match r {
            Ok(Some(s)) => surface_given(
                host,
                a,
                values,
                placed,
                fields,
                members[at],
                glass,
                at,
                Ok(s),
            ),
            Ok(None) => false,
            Err(f) => surface_given(
                host,
                a,
                values,
                placed,
                fields,
                members[at],
                glass,
                at,
                Err(f),
            ),
        },
        _ => r == Ok::<Option<Surface>, LayoutFault>(None),
    }
}

/// Whether the first nodes give these surfaces.
pub open spec fn nodes_given<
    N: Fn(&GlassSum) -> Scalar,
    Q: Fn(&Quad) -> Option<Homography>,
    P: Fn(&SegmentGeometry, usize) -> Point,
    R: Fn(&RectTask) -> Option<Rect>,
    L: Fn(&Vec<ForegroundColors>) -> Option<Scalar>,
>(
    host: GlassHost<N, Q, P, R, L>,
    a: SceneArtifact,
    values: Seq<Value>,
    placed: Placed,
    fields: Seq<Field>,
    members: Seq<Option<Seq<char>>>,
    list: Seq<Option<Surface>>,
) -> bool {
    list.len() <= a.nodes@.len() && forall|at: int|
        0 <= at < list.len() ==> node_given(
            host,
            a,
            values,
            placed,
            fields,
            members,
            at,
            Ok(#[trigger] list[at]),
        )
}

/// The surfaces among the first `n` nodes.
pub open spec fn present(list: Seq<Option<Surface>>, n: nat) -> Seq<Surface>
    decreases n,
{
    if n == 0 {
        Seq::empty()
    } else {
        let rest = present(list, (n - 1) as nat);
        match list[n - 1] {
            Some(s) => rest.push(s),
            None => rest,
        }
    }
}

proof fn present_prefix(list: Seq<Option<Surface>>, next: Option<Surface>, n: nat)
    requires
        n <= list.len(),
    ensures
        present(list.push(next), n) == present(list, n),
    decreases n,
{
    if n > 0 {
        present_prefix(list, next, (n - 1) as nat);
    }
}

pub open spec fn surface_ids(s: Seq<Surface>) -> Seq<Seq<char>> {
    s.map_values(|s: Surface| s.surface_id)
}

pub open spec fn field_ids(s: Seq<Field>) -> Seq<Seq<char>> {
    s.map_values(|s: Field| s.field_id)
}

/// Whether a list is another one sorted by identifiers.
pub open spec fn surfaces_sorted(all: Seq<Surface>, order: Seq<usize>, r: Seq<Surface>) -> bool {
    sorts(surface_ids(all), order, all.len()) && r == order.map_values(|i: usize| all[i as int])
}

/// Whether a list is another one sorted by identifiers.
pub open spec fn fields_sorted(all: Seq<Field>, order: Seq<usize>, r: Seq<Field>) -> bool {
    sorts(field_ids(all), order, all.len()) && r == order.map_values(|i: usize| all[i as int])
}

/// The identifiers of the surfaces of a field among the first `n` surfaces.
pub open spec fn member_ids(surfaces: Seq<Surface>, field: Seq<char>, n: nat) -> Seq<Seq<char>>
    decreases n,
{
    if n == 0 {
        Seq::empty()
    } else {
        let rest = member_ids(surfaces, field, (n - 1) as nat);
        if surfaces[n - 1].field_id == Some(field) {
            rest.push(surfaces[n - 1].surface_id)
        } else {
            rest
        }
    }
}

/// Whether every field lists its members.
pub open spec fn members_listed(surfaces: Seq<Surface>, fields: Seq<GlassLayoutField>) -> bool {
    forall|i: int| 0 <= i < fields.len() ==> lists_members(surfaces, #[trigger] fields[i])
}

pub open spec fn lists_members(surfaces: Seq<Surface>, field: GlassLayoutField) -> bool {
    keys_of(field.member_surface_ids@) == member_ids(surfaces, field.field_id@, surfaces.len())
}

/// The field of each of the first `n` nodes that stands in one, by node key.
pub open spec fn node_fields_of(a: SceneArtifact, members: Seq<Option<Seq<char>>>, n: nat) -> Seq<
    (Seq<char>, Seq<char>),
>
    decreases n,
{
    if n == 0 {
        Seq::empty()
    } else {
        let rest = node_fields_of(a, members, (n - 1) as nat);
        match members[n - 1] {
            Some(id) => rest.push((a.nodes@[n - 1].key@, id)),
            None => rest,
        }
    }
}

pub open spec fn entries_seen(v: Seq<Entry<String>>) -> Seq<(Seq<char>, Seq<char>)> {
    v.map_values(|e: Entry<String>| (e.key@, e.value@))
}

/// Whether these are the fields of the nodes of a scene.
pub open spec fn membership_told(a: SceneArtifact, members: Seq<Option<Seq<char>>>) -> bool {
    exists|m: Membership| #[trigger]
        found(a, m) && m.field@.len() == a.nodes@.len() && members == m.field@.map_values(
            |f: Option<usize>| field_name(a, f),
        )
}

/// How the glass of a frame comes about.
pub struct FrameParts {
    /// The field of each node.
    pub members: Seq<Option<Seq<char>>>,
    /// The surfaces of the first nodes.
    pub list: Seq<Option<Surface>>,
    pub surface_order: Seq<usize>,
    pub field_order: Seq<usize>,
}

/// Whether `r` is the glass of a frame, gathered in these steps: fields first, then surfaces, each in
/// the order of the nodes up to the first failure, then both sorted by identifier.
pub open spec fn frame_given<
    N: Fn(&GlassSum) -> Scalar,
    Q: Fn(&Quad) -> Option<Homography>,
    P: Fn(&SegmentGeometry, usize) -> Point,
    R: Fn(&RectTask) -> Option<Rect>,
    L: Fn(&Vec<ForegroundColors>) -> Option<Scalar>,
>(
    host: GlassHost<N, Q, P, R, L>,
    a: SceneArtifact,
    values: Seq<Value>,
    placed: Placed,
    p: FrameParts,
    r: Result<GlassLayoutFrame, LayoutError>,
) -> bool {
    &&& membership_told(a, p.members)
    &&& match fields_bound(a, placed.transforms@, values, a.nodes@.len()) {
        Err(f) => r matches Err(e) && e@ == f,
        Ok(fields) => nodes_given(host, a, values, placed, fields, p.members, p.list) && match r {
            Err(e) => p.list.len() < a.nodes@.len() && node_given(
                host,
                a,
                values,
                placed,
                fields,
                p.members,
                p.list.len() as int,
                Err(e@),
            ),
            Ok(frame) => p.list.len() == a.nodes@.len() && surfaces_sorted(
                present(p.list, p.list.len()),
                p.surface_order,
                surfaces_seen(frame.surfaces@),
            ) && fields_sorted(fields, p.field_order, fields_seen(frame.fields@))
                && members_listed(surfaces_seen(frame.surfaces@), frame.fields@) && entries_seen(
                frame.node_fields@,
            ) == node_fields_of(a, p.members, a.nodes@.len()),
        },
    }
}

fn copied_points(v: &Vec<Point>) -> (r: Vec<Point>)
    ensures
        r@ == v@,
{
    let mut out: Vec<Point> = Vec::new();
    let mut i: usize = 0;
    while i < v.len()
        invariant
            i <= v@.len(),
            out@ == v@.take(i as int),
        decreases v@.len() - i,
    {
        out.push(v[i]);
        i = i + 1;
        assert(out@ =~= v@.take(i as int));
    }
    assert(v@.take(i as int) =~= v@);
    out
}

fn copied_name(v: &Option<String>) -> (r: Option<String>)
    ensures
        name_of(r) == name_of(*v),
{
    match v {
        Some(s) => Some(s.clone()),
        None => None,
    }
}

fn copied_surface(s: &GlassLayoutSurface) -> (r: GlassLayoutSurface)
    ensures
        r@ == s@,
{
    GlassLayoutSurface {
        node_key: s.node_key.clone(),
        surface_id: s.surface_id.clone(),
        field_id: copied_name(&s.field_id),
        shape: s.shape,
        local_rect: s.local_rect,
        viewport_matrix: s.viewport_matrix,
        owner_to_viewport: s.owner_to_viewport,
        radius: s.radius,
        path_points: copied_points(&s.path_points),
        presence: s.presence,
        motion: s.motion,
        material: s.material,
        environment: s.environment,
        foreground: s.foreground,
    }
}

fn sort_surfaces(all: &Vec<GlassLayoutSurface>) -> (r: Vec<GlassLayoutSurface>)
    ensures
        exists|order: Seq<usize>| #[trigger]
            surfaces_sorted(surfaces_seen(all@), order, surfaces_seen(r@)),
{
    let ghost seen = surfaces_seen(all@);
    let mut ids: Vec<String> = Vec::new();
    let mut i: usize = 0;
    while i < all.len()
        invariant
            i <= all@.len(),
            seen == surfaces_seen(all@),
            keys_of(ids@) == surface_ids(seen).take(i as int),
        decreases all@.len() - i,
    {
        let ghost start = ids@;
        ids.push(all[i].surface_id.clone());
        i = i + 1;
        assert(keys_of(ids@) =~= keys_of(start).push(all@[i - 1].surface_id@));
        assert(keys_of(ids@) =~= surface_ids(seen).take(i as int));
    }
    assert(surface_ids(seen).take(i as int) =~= surface_ids(seen));
    assert(keys_of(ids@).len() == all@.len());
    let order = sorted_positions(&ids);
    let ghost want = order@.map_values(|i: usize| seen[i as int]);
    let mut out: Vec<GlassLayoutSurface> = Vec::new();
    let mut k: usize = 0;
    while k < order.len()
        invariant
            k <= order@.len(),
            order@.len() == all@.len(),
            seen == surfaces_seen(all@),
            want == order@.map_values(|i: usize| seen[i as int]),
            forall|j: int| 0 <= j < all@.len() ==> (#[trigger] order@[j]) < all@.len(),
            surfaces_seen(out@) == want.take(k as int),
        decreases order@.len() - k,
    {
        let ghost start = out@;
        out.push(copied_surface(&all[order[k]]));
        k = k + 1;
        assert(surfaces_seen(out@) =~= surfaces_seen(start).push(seen[order@[k - 1] as int]));
        assert(surfaces_seen(out@) =~= want.take(k as int));
    }
    assert(want.take(k as int) =~= want);
    assert(surfaces_sorted(surfaces_seen(all@), order@, surfaces_seen(out@)));
    out
}

fn list_members(surfaces: &Vec<GlassLayoutSurface>, field: &str) -> (r: Vec<String>)
    ensures
        keys_of(r@) == member_ids(surfaces_seen(surfaces@), field@, surfaces@.len()),
{
    let ghost seen = surfaces_seen(surfaces@);
    let mut out: Vec<String> = Vec::new();
    let mut i: usize = 0;
    assert(keys_of(out@) =~= Seq::empty());
    while i < surfaces.len()
        invariant
            i <= surfaces@.len(),
            seen == surfaces_seen(surfaces@),
            keys_of(out@) == member_ids(seen, field@, i as nat),
        decreases surfaces@.len() - i,
    {
        let ghost start = out@;
        assert(seen[i as int] == surfaces@[i as int]@);
        let inside = match &surfaces[i].field_id {
            Some(id) => same_text(id.as_str(), field),
            None => false,
        };
        if inside {
            out.push(surfaces[i].surface_id.clone());
            assert(keys_of(out@) =~= keys_of(start).push(seen[i as int].surface_id));
        }
        i = i + 1;
    }
    out
}

fn sort_fields(all: &Vec<GlassLayoutField>, surfaces: &Vec<GlassLayoutSurface>) -> (r: Vec<
    GlassLayoutField,
>)
    ensures
        exists|order: Seq<usize>| #[trigger]
            fields_sorted(fields_seen(all@), order, fields_seen(r@)),
        members_listed(surfaces_seen(surfaces@), r@),
{
    let ghost seen = fields_seen(all@);
    let mut ids: Vec<String> = Vec::new();
    let mut i: usize = 0;
    while i < all.len()
        invariant
            i <= all@.len(),
            seen == fields_seen(all@),
            keys_of(ids@) == field_ids(seen).take(i as int),
        decreases all@.len() - i,
    {
        let ghost start = ids@;
        ids.push(all[i].field_id.clone());
        i = i + 1;
        assert(keys_of(ids@) =~= keys_of(start).push(all@[i - 1].field_id@));
        assert(keys_of(ids@) =~= field_ids(seen).take(i as int));
    }
    assert(field_ids(seen).take(i as int) =~= field_ids(seen));
    assert(keys_of(ids@).len() == all@.len());
    let order = sorted_positions(&ids);
    let ghost want = order@.map_values(|i: usize| seen[i as int]);
    let mut out: Vec<GlassLayoutField> = Vec::new();
    let mut k: usize = 0;
    while k < order.len()
        invariant
            k <= order@.len(),
            order@.len() == all@.len(),
            seen == fields_seen(all@),
            want == order@.map_values(|i: usize| seen[i as int]),
            forall|j: int| 0 <= j < all@.len() ==> (#[trigger] order@[j]) < all@.len(),
            fields_seen(out@) == want.take(k as int),
            members_listed(surfaces_seen(surfaces@), out@),
        decreases order@.len() - k,
    {
        let ghost start = out@;
        let from = &all[order[k]];
        let one = GlassLayoutField {
            node_key: from.node_key.clone(),
            field_id: from.field_id.clone(),
            owner_to_viewport: from.owner_to_viewport,
            material: from.material,
            environment: from.environment,
            motion: from.motion,
            merge_distance: from.merge_distance,
            member_surface_ids: list_members(surfaces, from.field_id.as_str()),
        };
        assert(one.own() == from.own());
        assert(surfaces_seen(surfaces@).len() == surfaces@.len());
        assert(lists_members(surfaces_seen(surfaces@), one));
        out.push(one);
        k = k + 1;
        assert(fields_seen(out@) =~= fields_seen(start).push(seen[order@[k - 1] as int]));
        assert(fields_seen(out@) =~= want.take(k as int));
        assert forall|i: int| 0 <= i < out@.len() implies lists_members(
            surfaces_seen(surfaces@),
            #[trigger] out@[i],
        ) by {
            if i < start.len() {
                assert(out@[i] == start[i]);
            }
        }
    }
    assert(want.take(k as int) =~= want);
    assert(fields_sorted(fields_seen(all@), order@, fields_seen(out@)));
    out
}

fn list_node_fields(artifact: &SceneArtifact, members: &Vec<Option<GlassFieldId>>) -> (r: Vec<
    Entry<String>,
>)
    requires
        members@.len() == artifact.nodes@.len(),
    ensures
        entries_seen(r@) == node_fields_of(
            *artifact,
            field_names(members@),
            artifact.nodes@.len(),
        ),
{
    let ghost told = field_names(members@);
    let mut out: Vec<Entry<String>> = Vec::new();
    let mut i: usize = 0;
    assert(entries_seen(out@) =~= Seq::empty());
    while i < artifact.nodes.len()
        invariant
            i <= artifact.nodes@.len(),
            members@.len() == artifact.nodes@.len(),
            told == field_names(members@),
            entries_seen(out@) == node_fields_of(*artifact, told, i as nat),
        decreases artifact.nodes@.len() - i,
    {
        let ghost start = out@;
        assert(told[i as int] == match members@[i as int] {
            Some(id) => Some(id@),
            None => None,
        });
        if let Some(id) = &members[i] {
            out.push(
                Entry { key: artifact.nodes[i].key.clone(), value: id.as_str().to_owned() },
            );
            assert(entries_seen(out@) =~= entries_seen(start).push(
                (artifact.nodes@[i as int].key@, id@),
            ));
        }
        i = i + 1;
    }
    out
}

/// Whether `r` is the glass of a frame; a scene without glass has none.
pub open spec fn glass_told<
    N: Fn(&GlassSum) -> Scalar,
    Q: Fn(&Quad) -> Option<Homography>,
    P: Fn(&SegmentGeometry, usize) -> Point,
    R: Fn(&RectTask) -> Option<Rect>,
    L: Fn(&Vec<ForegroundColors>) -> Option<Scalar>,
>(
    host: GlassHost<N, Q, P, R, L>,
    a: SceneArtifact,
    values: Seq<Value>,
    placed: Placed,
    r: Result<GlassLayoutFrame, LayoutError>,
) -> bool {
    if has_glass(a) {
        exists|p: FrameParts| #[trigger] frame_given(host, a, values, placed, p, r)
    } else {
        r matches Ok(frame) && frame.surfaces@.len() == 0 && frame.fields@.len() == 0
            && frame.node_fields@.len() == 0
    }
}

/// Gathers the glass of a frame; a scene without glass has none.
pub fn resolve_glass_layout<
    N: Fn(&GlassSum) -> Scalar,
    Q: Fn(&Quad) -> Option<Homography>,
    P: Fn(&SegmentGeometry, usize) -> Point,
    R: Fn(&RectTask) -> Option<Rect>,
    L: Fn(&Vec<ForegroundColors>) -> Option<Scalar>,
>(
    host: &GlassHost<N, Q, P, R, L>,
    artifact: &SceneArtifact,
    values: &Vec<MotionValue>,
    placed: &Placed,
) -> (r: Result<GlassLayoutFrame, LayoutError>)
    requires
        callable(*host),
    ensures
        glass_told(*host, *artifact, values_of(values@), *placed, r),
{
    if !any_glass(artifact) {
        return Ok(
            GlassLayoutFrame {
                surfaces: Vec::new(),
                fields: Vec::new(),
                node_fields: Vec::new(),
            },
        );
    }
    let members = field_membership(artifact);
    let ghost told = field_names(members@);
    assert(membership_told(*artifact, told));
    assert(told.len() == artifact.nodes@.len());
    let ghost mut p = FrameParts {
        members: told,
        list: Seq::empty(),
        surface_order: Seq::empty(),
        field_order: Seq::empty(),
    };
    let fields = match read_fields(artifact, placed.transforms, values) {
        Ok(v) => v,
        Err(e) => {
            let r: Result<GlassLayoutFrame, LayoutError> = Err(e);
            assert(frame_given(*host, *artifact, values_of(values@), *placed, p, r));
            return r;
        },
    };
    let ghost known = fields_seen(fields@);
    let mut surfaces: Vec<GlassLayoutSurface> = Vec::new();
    let ghost mut list: Seq<Option<Surface>> = Seq::empty();
    let mut at: usize = 0;
    assert(surfaces_seen(surfaces@) =~= present(list, 0));
    while at < artifact.nodes.len()
        invariant
            callable(*host),
            at <= artifact.nodes@.len(),
            told == field_names(members@),
            told.len() == artifact.nodes@.len(),
            membership_told(*artifact, told),
            p.members == told,
            known == fields_seen(fields@),
            fields_bound(
                *artifact,
                placed.transforms@,
                values_of(values@),
                artifact.nodes@.len(),
            ) == Ok::<Seq<Field>, LayoutFault>(known),
            list.len() == at,
            nodes_given(*host, *artifact, values_of(values@), *placed, known, told, list),
            surfaces_seen(surfaces@) == present(list, at as nat),
        decreases artifact.nodes@.len() - at,
    {
        let ghost start = surfaces@;
        let ghost mut next: Option<Surface> = None;
        if let NodeKind::Glass(glass) = &artifact.nodes[at].kind {
            let member: Option<String> = match &members[at] {
                Some(id) => Some(id.as_str().to_owned()),
                None => None,
            };
            assert(name_of(member) == told[at as int]);
            let given = glass_surface(
                host,
                artifact,
                values,
                placed,
                &fields,
                member,
                glass,
                at,
            );
            let ghost seen = laid(given);
            match given {
                Err(e) => {
                    proof {
                        p.list = list;
                    }
                    assert(node_given(
                        *host,
                        *artifact,
                        values_of(values@),
                        *placed,
                        known,
                        told,
                        at as int,
                        Err(e@),
                    ));
                    let r: Result<GlassLayoutFrame, LayoutError> = Err(e);
                    assert(frame_given(*host, *artifact, values_of(values@), *placed, p, r));
                    return r;
                },
                Ok(s) => {
                    proof {
                        next = Some(s@);
                    }
                    surfaces.push(s);
                    assert(surfaces_seen(surfaces@) =~= surfaces_seen(start).push(next->0));
                },
            }
        }
        proof {
            assert(node_given(
                *host,
                *artifact,
                values_of(values@),
                *placed,
                known,
                told,
                at as int,
                Ok(next),
            ));
            present_prefix(list, next, at as nat);
            let now = list.push(next);
            assert forall|i: int| 0 <= i < now.len() implies node_given(
                *host,
                *artifact,
                values_of(values@),
                *placed,
                known,
                told,
                i,
                Ok(#[trigger] now[i]),
            ) by {
                if i < at {
                    assert(now[i] == list[i]);
                }
            }
            list = now;
        }
        at = at + 1;
    }
    let node_fields = list_node_fields(artifact, &members);
    let sorted = sort_surfaces(&surfaces);
    let arranged = sort_fields(&fields, &sorted);
    proof {
        p.list = list;
        p.surface_order = choose|order: Seq<usize>| #[trigger]
            surfaces_sorted(surfaces_seen(surfaces@), order, surfaces_seen(sorted@));
        p.field_order = choose|order: Seq<usize>| #[trigger]
            fields_sorted(fields_seen(fields@), order, fields_seen(arranged@));
    }
    let r: Result<GlassLayoutFrame, LayoutError> = Ok(
        GlassLayoutFrame { surfaces: sorted, fields: arranged, node_fields },
    );
    assert(frame_given(*host, *artifact, values_of(values@), *placed, p, r));
    r
}

/// Sorted surfaces are ordered by their identifiers.
pub proof fn sorted_surfaces_are_ordered(
    all: Seq<Surface>,
    order: Seq<usize>,
    r: Seq<Surface>,
    i: int,
    j: int,
)
    requires
        surfaces_sorted(all, order, r),
        0 <= i < j < r.len(),
    ensures
        r.len() == all.len(),
        before(r[i].surface_id, r[j].surface_id) || r[i].surface_id == r[j].surface_id,
{
    assert(crate::order::sorted_pair(surface_ids(all), order[i], order[j]));
}

/// A field lists a surface exactly where the surface names the field.
pub proof fn members_name_their_field(surfaces: Seq<Surface>, field: GlassLayoutField, id: Seq<char>)
    requires
        lists_members(surfaces, field),
    ensures
        keys_of(field.member_surface_ids@).contains(id) <==> exists|i: int|
            0 <= i < surfaces.len() && (#[trigger] surfaces[i]).surface_id == id
                && surfaces[i].field_id == Some(field.field_id@),
{
    members_among(surfaces, field.field_id@, id, surfaces.len());
}

proof fn members_among(surfaces: Seq<Surface>, field: Seq<char>, id: Seq<char>, n: nat)
    requires
        n <= surfaces.len(),
    ensures
        member_ids(surfaces, field, n).contains(id) <==> exists|i: int|
            0 <= i < n && (#[trigger] surfaces[i]).surface_id == id && surfaces[i].field_id == Some(
                field,
            ),
    decreases n,
{
    if n > 0 {
        members_among(surfaces, field, id, (n - 1) as nat);
        let rest = member_ids(surfaces, field, (n - 1) as nat);
        let all = member_ids(surfaces, field, n);
        let s = surfaces[n - 1];
        if s.field_id == Some(field) {
            assert(all == rest.push(s.surface_id));
            assert(all.last() == s.surface_id);
            if rest.contains(id) {
                let k = choose|k: int| 0 <= k < rest.len() && rest[k] == id;
                assert(all[k] == id);
            }
            if all.contains(id) {
                let k = choose|k: int| 0 <= k < all.len() && all[k] == id;
                if k < rest.len() {
                    assert(rest[k] == id);
                }
            }
        }
    }
}

} // verus!
