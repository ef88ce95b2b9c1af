//! Pairing the nodes of a scene with the render tree and the layout tree that were built from it.

use vstd::prelude::*;

use crate::artifact::{CoordinateSpace, NodeId, NodeKind, SceneArtifact};
use crate::frame::PathKey;
use crate::layout_error::{LayoutError, LayoutFault};
use crate::recording::Rect;
use crate::table::{ascending, mapped, store, Entry};

verus! {

/// The nodes with boxes that a node stands for: itself, or for a field those of its children.
/// Nothing where a child range is bad, or fields are nested deeper than `fuel`.
pub open spec fn boxed(a: SceneArtifact, id: NodeId, fuel: nat) -> Option<Seq<NodeId>>
    decreases fuel, 0nat,
{
    if fuel == 0 || id.0 >= a.nodes@.len() {
        None
    } else if a.nodes@[id.0 as int].kind is GlassField {
        match a.children_of(id.0 as int) {
            None => None,
            Some(ids) => all_boxed(a, ids, ids.len(), (fuel - 1) as nat),
        }
    } else {
        Some(seq![id])
    }
}

/// The nodes with boxes that the first `n` of a list stand for.
pub open spec fn all_boxed(a: SceneArtifact, ids: Seq<NodeId>, n: nat, fuel: nat) -> Option<
    Seq<NodeId>,
>
    decreases fuel, n + 1,
{
    if n == 0 {
        Some(Seq::empty())
    } else {
        match all_boxed(a, ids, (n - 1) as nat, fuel) {
            None => None,
            Some(before) => match boxed(a, ids[n - 1], fuel) {
                None => None,
                Some(more) => Some(before + more),
            },
        }
    }
}

/// Children that own boxes, in order; fields are replaced by their children. A scene that is a tree
/// nests fields no deeper than it has nodes.
pub open spec fn boxed_children(a: SceneArtifact, owner: NodeId) -> Option<Seq<NodeId>> {
    match a.children_of(owner.0 as int) {
        None => None,
        Some(ids) => all_boxed(a, ids, ids.len(), a.nodes@.len()),
    }
}

proof fn boxed_stuck(a: SceneArtifact, ids: Seq<NodeId>, m: nat, n: nat, fuel: nat)
    requires
        m <= n,
        all_boxed(a, ids, m, fuel) is None,
    ensures
        all_boxed(a, ids, n, fuel) is None,
    decreases n - m,
{
    if m < n {
        boxed_stuck(a, ids, m, (n - 1) as nat, fuel);
    }
}

fn push_boxed(artifact: &SceneArtifact, id: NodeId, fuel: usize, out: &mut Vec<NodeId>) -> (r: bool)
    ensures
        r == (boxed(*artifact, id, fuel as nat) is Some),
        r ==> final(out)@ == old(out)@ + boxed(*artifact, id, fuel as nat)->0,
    decreases fuel, 0nat,
{
    if fuel == 0 || id.0 as usize >= artifact.nodes.len() {
        return false;
    }
    match &artifact.nodes[id.0 as usize].kind {
        NodeKind::GlassField(_) => match artifact.child_ids(id.0 as usize) {
            None => false,
            Some(ids) => push_all_boxed(artifact, &ids, fuel - 1, out),
        },
        _ => {
            out.push(id);
            assert(out@ =~= old(out)@ + seq![id]);
            true
        },
    }
}

fn push_all_boxed(
    artifact: &SceneArtifact,
    ids: &Vec<NodeId>,
    fuel: usize,
    out: &mut Vec<NodeId>,
) -> (r: bool)
    ensures
        r == (all_boxed(*artifact, ids@, ids@.len(), fuel as nat) is Some),
        r ==> final(out)@ == old(out)@ + all_boxed(*artifact, ids@, ids@.len(), fuel as nat)->0,
    decreases fuel, 1nat,
{
    let mut n: usize = 0;
    assert(out@ =~= old(out)@ + Seq::<NodeId>::empty());
    while n < ids.len()
        invariant
            n <= ids@.len(),
            all_boxed(*artifact, ids@, n as nat, fuel as nat) is Some,
            out@ == old(out)@ + all_boxed(*artifact, ids@, n as nat, fuel as nat)->0,
        decreases ids@.len() - n,
    {
        let ghost before = all_boxed(*artifact, ids@, n as nat, fuel as nat)->0;
        if !push_boxed(artifact, ids[n], fuel, out) {
            proof {
                boxed_stuck(*artifact, ids@, (n + 1) as nat, ids@.len(), fuel as nat);
            }
            return false;
        }
        assert(out@ =~= old(out)@ + (before + boxed(*artifact, ids@[n as int], fuel as nat)->0));
        n = n + 1;
    }
    true
}

/// Children that own boxes, in order; fields are replaced by their children.
pub fn projected_child_ids(artifact: &SceneArtifact, owner: NodeId) -> (r: Option<Vec<NodeId>>)
    ensures
        match r {
            Some(v) => boxed_children(*artifact, owner) == Some(v@),
            None => boxed_children(*artifact, owner) is None,
        },
{
    let ids = match artifact.child_ids(owner.0 as usize) {
        Some(ids) => ids,
        None => {
            return None;
        },
    };
    let mut out: Vec<NodeId> = Vec::new();
    if push_all_boxed(artifact, &ids, artifact.nodes.len(), &mut out) {
        assert(Seq::<NodeId>::empty() + all_boxed(
            *artifact,
            ids@,
            ids@.len(),
            artifact.nodes@.len(),
        )->0 =~= out@);
        Some(out)
    } else {
        None
    }
}

/// Whether a node stays on the screen when the camera moves.
pub open spec fn on_screen(a: SceneArtifact, id: NodeId) -> bool {
    id.0 < a.nodes@.len() && a.nodes@[id.0 as int].space == Some(CoordinateSpace::Screen)
}

pub(crate) fn is_on_screen(artifact: &SceneArtifact, id: NodeId) -> (r: bool)
    ensures
        r == on_screen(*artifact, id),
{
    if (id.0 as usize) < artifact.nodes.len() {
        match artifact.nodes[id.0 as usize].space {
            Some(CoordinateSpace::Screen) => true,
            _ => false,
        }
    } else {
        false
    }
}

/// Nodes among the first `n` of a list on one side of the camera.
pub open spec fn side(a: SceneArtifact, ids: Seq<NodeId>, screen: bool, n: nat) -> Seq<NodeId>
    decreases n,
{
    if n == 0 {
        Seq::empty()
    } else if on_screen(a, ids[n - 1]) == screen {
        side(a, ids, screen, (n - 1) as nat).push(ids[n - 1])
    } else {
        side(a, ids, screen, (n - 1) as nat)
    }
}

/// Splits nodes into those that the camera moves and those that stay on the screen.
pub fn split_spaces(artifact: &SceneArtifact, ids: &Vec<NodeId>) -> (r: (Vec<NodeId>, Vec<NodeId>))
    ensures
        r.0@ == side(*artifact, ids@, false, ids@.len()),
        r.1@ == side(*artifact, ids@, true, ids@.len()),
{
    let mut world: Vec<NodeId> = Vec::new();
    let mut screen: Vec<NodeId> = Vec::new();
    let mut n: usize = 0;
    while n < ids.len()
        invariant
            n <= ids@.len(),
            world@ == side(*artifact, ids@, false, n as nat),
            screen@ == side(*artifact, ids@, true, n as nat),
        decreases ids@.len() - n,
    {
        if is_on_screen(artifact, ids[n]) {
            screen.push(ids[n]);
        } else {
            world.push(ids[n]);
        }
        n = n + 1;
    }
    (world, screen)
}

/// A node of the render tree. Text without a node of its own, and blocks without one, come from the
/// layout engine.
pub struct RenderShape {
    pub is_anonymous_text: bool,
    pub is_anonymous: bool,
    pub children: Option<Vec<RenderShape>>,
}

/// Keys by the paths they belong to.
pub open spec fn keys_seen(v: Seq<PathKey>) -> Seq<(Seq<usize>, Seq<char>)> {
    v.map_values(|k: PathKey| (k.path@, k.key@))
}

/// A whole render subtree under one key.
pub open spec fn owned_keys(r: RenderShape, path: Seq<usize>, key: Seq<char>) -> Seq<
    (Seq<usize>, Seq<char>),
>
    decreases r,
{
    seq![(path, key)] + (match r.children {
        None => Seq::empty(),
        Some(kids) => owned_kids(kids, 0, path, key),
    })
}

pub open spec fn owned_kids(kids: Vec<RenderShape>, i: int, path: Seq<usize>, key: Seq<char>) -> Seq<
    (Seq<usize>, Seq<char>),
>
    decreases kids, kids@.len() - i,
{
    if i < 0 || i >= kids@.len() {
        Seq::empty()
    } else {
        owned_keys(kids[i], path.push(i as usize), key) + owned_kids(kids, i + 1, path, key)
    }
}

/// The scene keys of a render tree: a node's own, and those of the nodes below it.
pub open spec fn render_keys(a: SceneArtifact, id: NodeId, r: RenderShape, path: Seq<usize>) -> Seq<
    (Seq<usize>, Seq<char>),
>
    decreases r,
{
    if id.0 >= a.nodes@.len() {
        Seq::empty()
    } else {
        let key = a.nodes@[id.0 as int].key@;
        seq![(path, key)] + (match (r.children, boxed_children(a, id)) {
            (Some(kids), Some(ids)) => if id == a.root && a.camera is Some {
                camera_keys(a, kids, ids, key, path)
            } else {
                matched_keys(a, kids, 0, ids, 0, key, path).0
            },
            _ => Seq::empty(),
        })
    }
}

/// The scene keys below a root with a camera: two wrappers around what the camera moves, then the
/// nodes that stay on the screen.
pub open spec fn camera_keys(
    a: SceneArtifact,
    kids: Vec<RenderShape>,
    ids: Seq<NodeId>,
    key: Seq<char>,
    path: Seq<usize>,
) -> Seq<(Seq<usize>, Seq<char>)>
    decreases kids, kids@.len() + 2,
{
    let world = side(a, ids, false, ids.len());
    let screen = side(a, ids, true, ids.len());
    (if kids@.len() == 0 {
        Seq::empty()
    } else {
        wrapper_keys(a, kids[0], world, key, path.push(0))
    }) + screen_keys(a, kids, 1, screen, path)
}

pub open spec fn wrapper_keys(
    a: SceneArtifact,
    outer: RenderShape,
    world: Seq<NodeId>,
    key: Seq<char>,
    path: Seq<usize>,
) -> Seq<(Seq<usize>, Seq<char>)>
    decreases outer,
{
    seq![(path, key)] + (match outer.children {
        None => Seq::empty(),
        Some(inners) => if inners@.len() == 0 {
            Seq::empty()
        } else {
            seq![(path.push(0), key)] + (match inners[0].children {
                None => Seq::empty(),
                Some(kids) => matched_keys(a, kids, 0, world, 0, key, path.push(0)).0,
            })
        },
    })
}

/// The scene keys of the nodes that stay on the screen, from render position `i` on.
pub open spec fn screen_keys(
    a: SceneArtifact,
    kids: Vec<RenderShape>,
    i: int,
    screen: Seq<NodeId>,
    path: Seq<usize>,
) -> Seq<(Seq<usize>, Seq<char>)>
    decreases kids, kids@.len() + 1 - i,
{
    if i < 1 || i >= kids@.len() || i - 1 >= screen.len() {
        Seq::empty()
    } else {
        render_keys(a, screen[i - 1], kids[i], path.push(i as usize)) + screen_keys(
            a,
            kids,
            i + 1,
            screen,
            path,
        )
    }
}

/// The scene keys of render children from `i` on, matched in order with nodes from `cursor` on, and
/// the cursor after them. Anonymous text belongs to its owner; anonymous blocks are looked through;
/// matching ends where no node is left.
pub open spec fn matched_keys(
    a: SceneArtifact,
    kids: Vec<RenderShape>,
    i: int,
    ids: Seq<NodeId>,
    cursor: nat,
    owner: Seq<char>,
    path: Seq<usize>,
) -> (Seq<(Seq<usize>, Seq<char>)>, nat)
    decreases kids, kids@.len() - i,
{
    if i < 0 || i >= kids@.len() {
        (Seq::empty(), cursor)
    } else {
        let here = path.push(i as usize);
        if kids[i].is_anonymous_text {
            let rest = matched_keys(a, kids, i + 1, ids, cursor, owner, path);
            (owned_keys(kids[i], here, owner) + rest.0, rest.1)
        } else if kids[i].is_anonymous {
            let inner = match kids[i].children {
                None => (Seq::empty(), cursor),
                Some(grandkids) => matched_keys(a, grandkids, 0, ids, cursor, owner, here),
            };
            let rest = matched_keys(a, kids, i + 1, ids, inner.1, owner, path);
            (inner.0 + rest.0, rest.1)
        } else if cursor < ids.len() {
            let rest = matched_keys(a, kids, i + 1, ids, cursor + 1, owner, path);
            (render_keys(a, ids[cursor as int], kids[i], here) + rest.0, rest.1)
        } else {
            (Seq::empty(), cursor)
        }
    }
}

fn copy_path(path: &Vec<usize>) -> (r: Vec<usize>)
    ensures
        r@ == path@,
{
    let mut out: Vec<usize> = Vec::new();
    let mut i: usize = 0;
    while i < path.len()
        invariant
            i <= path@.len(),
            out@ == path@.take(i as int),
        decreases path@.len() - i,
    {
        out.push(path[i]);
        i = i + 1;
        assert(out@ =~= path@.take(i as int));
    }
    assert(path@.take(i as int) =~= path@);
    out
}

fn put_key(out: &mut Vec<PathKey>, path: &Vec<usize>, key: &str)
    ensures
        keys_seen(final(out)@) == keys_seen(old(out)@) + seq![(path@, key@)],
{
    let ghost before = out@;
    out.push(PathKey { path: copy_path(path), key: key.to_owned() });
    assert(keys_seen(out@) =~= keys_seen(before) + seq![(path@, key@)]);
}

fn extended(path: &Vec<usize>, i: usize) -> (r: Vec<usize>)
    ensures
        r@ == path@.push(i),
{
    let mut out = copy_path(path);
    out.push(i);
    out
}

fn walk_owned(r: &RenderShape, path: &Vec<usize>, key: &str, out: &mut Vec<PathKey>)
    ensures
        keys_seen(final(out)@) == keys_seen(old(out)@) + owned_keys(*r, path@, key@),
    decreases *r,
{
    put_key(out, path, key);
    match &r.children {
        None => {},
        Some(kids) => walk_owned_kids(kids, 0, path, key, out),
    }
    assert(keys_seen(out@) =~= keys_seen(old(out)@) + owned_keys(*r, path@, key@));
}

fn walk_owned_kids(
    kids: &Vec<RenderShape>,
    i: usize,
    path: &Vec<usize>,
    key: &str,
    out: &mut Vec<PathKey>,
)
    ensures
        keys_seen(final(out)@) == keys_seen(old(out)@) + owned_kids(*kids, i as int, path@, key@),
    decreases *kids, kids@.len() - i,
{
    if i < kids.len() {
        let here = extended(path, i);
        walk_owned(&kids[i], &here, key, out);
        walk_owned_kids(kids, i + 1, path, key, out);
    }
    assert(keys_seen(out@) =~= keys_seen(old(out)@) + owned_kids(*kids, i as int, path@, key@));
}

/// Pairs a scene with its render tree: which node each render path belongs to.
pub fn walk_render_keys(
    artifact: &SceneArtifact,
    id: NodeId,
    r: &RenderShape,
    path: &Vec<usize>,
    out: &mut Vec<PathKey>,
)
    ensures
        keys_seen(final(out)@) == keys_seen(old(out)@) + render_keys(*artifact, id, *r, path@),
    decreases *r,
{
    if id.0 as usize >= artifact.nodes.len() {
        assert(keys_seen(out@) =~= keys_seen(old(out)@) + render_keys(*artifact, id, *r, path@));
        return;
    }
    let key = artifact.nodes[id.0 as usize].key.as_str();
    put_key(out, path, key);
    match &r.children {
        None => {},
        Some(kids) => match projected_child_ids(artifact, id) {
            None => {},
            Some(ids) => {
                if id == artifact.root && artifact.camera.is_some() {
                    walk_camera(artifact, kids, &ids, key, path, out);
                } else {
                    match_render_children(artifact, kids, 0, &ids, 0, key, path, out);
                }
            },
        },
    }
    assert(keys_seen(out@) =~= keys_seen(old(out)@) + render_keys(*artifact, id, *r, path@));
}

fn walk_camera(
    artifact: &SceneArtifact,
    kids: &Vec<RenderShape>,
    ids: &Vec<NodeId>,
    key: &str,
    path: &Vec<usize>,
    out: &mut Vec<PathKey>,
)
    ensures
        keys_seen(final(out)@) == keys_seen(old(out)@) + camera_keys(
            *artifact,
            *kids,
            ids@,
            key@,
            path@,
        ),
    decreases *kids, kids@.len() + 2,
{
    let (world, screen) = split_spaces(artifact, ids);
    if kids.len() > 0 {
        let here = extended(path, 0);
        walk_wrapper(artifact, &kids[0], &world, key, &here, out);
    }
    walk_screen(artifact, kids, 1, &screen, path, out);
    assert(keys_seen(out@) =~= keys_seen(old(out)@) + camera_keys(
        *artifact,
        *kids,
        ids@,
        key@,
        path@,
    ));
}

fn walk_wrapper(
    artifact: &SceneArtifact,
    outer: &RenderShape,
    world: &Vec<NodeId>,
    key: &str,
    path: &Vec<usize>,
    out: &mut Vec<PathKey>,
)
    ensures
        keys_seen(final(out)@) == keys_seen(old(out)@) + wrapper_keys(
            *artifact,
            *outer,
            world@,
            key@,
            path@,
        ),
    decreases *outer,
{
    put_key(out, path, key);
    match &outer.children {
        None => {},
        Some(inners) => {
            if inners.len() > 0 {
                let here = extended(path, 0);
                put_key(out, &here, key);
                match &inners[0].children {
                    None => {},
                    Some(kids) => {
                        match_render_children(artifact, kids, 0, world, 0, key, &here, out);
                    },
                }
            }
        },
    }
    assert(keys_seen(out@) =~= keys_seen(old(out)@) + wrapper_keys(
        *artifact,
        *outer,
        world@,
        key@,
        path@,
    ));
}

fn walk_screen(
    artifact: &SceneArtifact,
    kids: &Vec<RenderShape>,
    i: usize,
    screen: &Vec<NodeId>,
    path: &Vec<usize>,
    out: &mut Vec<PathKey>,
)
    requires
        i >= 1,
    ensures
        keys_seen(final(out)@) == keys_seen(old(out)@) + screen_keys(
            *artifact,
            *kids,
            i as int,
            screen@,
            path@,
        ),
    decreases *kids, kids@.len() + 1 - i,
{
    if i < kids.len() && i - 1 < screen.len() {
        let here = extended(path, i);
        walk_render_keys(artifact, screen[i - 1], &kids[i], &here, out);
        walk_screen(artifact, kids, i + 1, screen, path, out);
    }
    assert(keys_seen(out@) =~= keys_seen(old(out)@) + screen_keys(
        *artifact,
        *kids,
        i as int,
        screen@,
        path@,
    ));
}

fn match_render_children(
    artifact: &SceneArtifact,
    kids: &Vec<RenderShape>,
    i: usize,
    ids: &Vec<NodeId>,
    cursor: usize,
    owner: &str,
    path: &Vec<usize>,
    out: &mut Vec<PathKey>,
) -> (r: usize)
    requires
        cursor <= ids@.len(),
    ensures
        keys_seen(final(out)@) == keys_seen(old(out)@) + matched_keys(
            *artifact,
            *kids,
            i as int,
            ids@,
            cursor as nat,
            owner@,
            path@,
        ).0,
        r == matched_keys(
            *artifact,
            *kids,
            i as int,
            ids@,
            cursor as nat,
            owner@,
            path@,
        ).1,
        r <= ids@.len(),
    decreases *kids, kids@.len() - i,
{
    if i >= kids.len() {
        assert(keys_seen(out@) =~= keys_seen(old(out)@) + Seq::empty());
        return cursor;
    }
    let here = extended(path, i);
    let mut next: usize = cursor;
    let ghost whole = matched_keys(
        *artifact,
        *kids,
        i as int,
        ids@,
        cursor as nat,
        owner@,
        path@,
    ).0;
    if kids[i].is_anonymous_text {
        walk_owned(&kids[i], &here, owner, out);
    } else if kids[i].is_anonymous {
        match &kids[i].children {
            None => {
                assert(keys_seen(out@) =~= keys_seen(old(out)@) + Seq::empty());
            },
            Some(grandkids) => {
                next = match_render_children(
                    artifact,
                    grandkids,
                    0,
                    ids,
                    cursor,
                    owner,
                    &here,
                    out,
                );
            },
        }
    } else if cursor < ids.len() {
        walk_render_keys(artifact, ids[cursor], &kids[i], &here, out);
        next = cursor + 1;
    } else {
        assert(keys_seen(out@) =~= keys_seen(old(out)@) + Seq::empty());
        return cursor;
    }
    let r: usize = match_render_children(artifact, kids, i + 1, ids, next, owner, path, out);
    assert(keys_seen(out@) =~= keys_seen(old(out)@) + whole);
    r
}

/// A box of the layout tree: its identifier, and the boxes inside it by their render positions.
pub struct LayoutBox {
    pub id: u64,
    pub children: Option<Vec<LayoutChild>>,
}

pub struct LayoutChild {
    pub render_index: usize,
    pub inner: LayoutBox,
}

/// A node with its box.
#[derive(Clone, Copy, Debug, PartialEq, Eq, Structural)]
pub struct Pair {
    pub node: usize,
    pub layout: u64,
}

/// Two lists in a row, unless one failed.
pub open spec fn both(a: Result<Seq<Pair>, int>, b: Result<Seq<Pair>, int>) -> Result<
    Seq<Pair>,
    int,
> {
    match (a, b) {
        (Err(e), _) => Err(e),
        (Ok(_), Err(e)) => Err(e),
        (Ok(x), Ok(y)) => Ok(x + y),
    }
}

/// The nodes of a subtree with their boxes; the position of the first bad node where there is one.
pub open spec fn paired(a: SceneArtifact, id: NodeId, b: LayoutBox) -> Result<Seq<Pair>, int>
    decreases b,
{
    if id.0 >= a.nodes@.len() {
        Err(id.0 as int)
    } else {
        match boxed_children(a, id) {
            None => Err(id.0 as int),
            Some(ids) => both(
                Ok(seq![Pair { node: id.0 as usize, layout: b.id }]),
                match b.children {
                    None => Ok(Seq::empty()),
                    Some(kids) => if id == a.root && a.camera is Some {
                        camera_pairs(a, kids, 0, ids)
                    } else {
                        child_pairs(a, kids, 0, ids)
                    },
                },
            ),
        }
    }
}

/// Boxes from `i` on, paired with the nodes at their render positions; others are left out.
pub open spec fn child_pairs(
    a: SceneArtifact,
    kids: Vec<LayoutChild>,
    i: int,
    ids: Seq<NodeId>,
) -> Result<Seq<Pair>, int>
    decreases kids, kids@.len() - i,
{
    if i < 0 || i >= kids@.len() {
        Ok(Seq::empty())
    } else {
        both(
            if kids[i].render_index < ids.len() {
                paired(a, ids[kids[i].render_index as int], kids[i].inner)
            } else {
                Ok(Seq::empty())
            },
            child_pairs(a, kids, i + 1, ids),
        )
    }
}

/// The boxes inside the camera's two wrappers.
pub open spec fn world_pairs(a: SceneArtifact, outer: LayoutBox, ids: Seq<NodeId>) -> Result<
    Seq<Pair>,
    int,
>
    decreases outer,
{
    match outer.children {
        None => Ok(Seq::empty()),
        Some(inners) => if inners@.len() == 0 {
            Ok(Seq::empty())
        } else {
            match inners[0].inner.children {
                None => Ok(Seq::empty()),
                Some(world) => child_pairs(a, world, 0, ids),
            }
        },
    }
}

/// Boxes of a root with a camera, from `i` on: the first render position is the camera's wrapper, the
/// others are nodes that stay on the screen.
pub open spec fn camera_pairs(
    a: SceneArtifact,
    kids: Vec<LayoutChild>,
    i: int,
    ids: Seq<NodeId>,
) -> Result<Seq<Pair>, int>
    decreases kids, kids@.len() - i,
{
    if i < 0 || i >= kids@.len() {
        Ok(Seq::empty())
    } else {
        let world = side(a, ids, false, ids.len()).len();
        both(
            if kids[i].render_index == 0 {
                world_pairs(a, kids[i].inner, ids)
            } else if world + kids[i].render_index - 1 < ids.len() {
                paired(a, ids[world + kids[i].render_index - 1], kids[i].inner)
            } else {
                Ok(Seq::empty())
            },
            camera_pairs(a, kids, i + 1, ids),
        )
    }
}

/// Pairs by their contents.
pub open spec fn pairs_seen(r: Result<Vec<Pair>, LayoutError>) -> Result<Seq<Pair>, LayoutFault> {
    match r {
        Ok(v) => Ok(v@),
        Err(e) => Err(e@),
    }
}

pub open spec fn as_fault(r: Result<Seq<Pair>, int>) -> Result<Seq<Pair>, LayoutFault> {
    match r {
        Ok(v) => Ok(v),
        Err(at) => Err(LayoutFault::BadNode(at)),
    }
}

fn chained(first: Vec<Pair>, rest: Result<Vec<Pair>, LayoutError>) -> (r: Result<
    Vec<Pair>,
    LayoutError,
>)
    ensures
        match rest {
            Ok(v) => r matches Ok(all) && all@ == first@ + v@,
            Err(e) => r matches Err(f) && f@ == e@,
        },
{
    match rest {
        Err(e) => Err(e),
        Ok(v) => {
            let mut all = first;
            let mut more = v;
            all.append(&mut more);
            Ok(all)
        },
    }
}

/// Pairs a scene with its layout tree. The two wrappers of a camera have no node.
pub fn walk_pairs(artifact: &SceneArtifact, id: NodeId, b: &LayoutBox) -> (r: Result<
    Vec<Pair>,
    LayoutError,
>)
    ensures
        pairs_seen(r) == as_fault(paired(*artifact, id, *b)),
    decreases *b,
{
    let at: usize = id.0 as usize;
    if at >= artifact.nodes.len() {
        return Err(LayoutError::BadNode { at });
    }
    let ids = match projected_child_ids(artifact, id) {
        Some(ids) => ids,
        None => {
            return Err(LayoutError::BadNode { at });
        },
    };
    let mut own: Vec<Pair> = Vec::new();
    own.push(Pair { node: at, layout: b.id });
    assert(own@ =~= seq![Pair { node: id.0 as usize, layout: b.id }]);
    match &b.children {
        None => {
            assert(own@ + Seq::<Pair>::empty() =~= own@);
            Ok(own)
        },
        Some(kids) => {
            let below = if id == artifact.root && artifact.camera.is_some() {
                walk_camera_pairs(artifact, kids, 0, &ids)
            } else {
                walk_child_pairs(artifact, kids, 0, &ids)
            };
            chained(own, below)
        },
    }
}

fn no_pairs() -> (r: Vec<Pair>)
    ensures
        r@ == Seq::<Pair>::empty(),
{
    let out: Vec<Pair> = Vec::new();
    assert(out@ =~= Seq::<Pair>::empty());
    out
}

fn walk_child_pairs(
    artifact: &SceneArtifact,
    kids: &Vec<LayoutChild>,
    i: usize,
    ids: &Vec<NodeId>,
) -> (r: Result<Vec<Pair>, LayoutError>)
    ensures
        pairs_seen(r) == as_fault(child_pairs(*artifact, *kids, i as int, ids@)),
    decreases *kids, kids@.len() - i,
{
    if i >= kids.len() {
        return Ok(no_pairs());
    }
    let here = if kids[i].render_index < ids.len() {
        match walk_pairs(artifact, ids[kids[i].render_index], &kids[i].inner) {
            Ok(v) => v,
            Err(e) => {
                return Err(e);
            },
        }
    } else {
        no_pairs()
    };
    chained(here, walk_child_pairs(artifact, kids, i + 1, ids))
}

fn walk_world_pairs(artifact: &SceneArtifact, outer: &LayoutBox, ids: &Vec<NodeId>) -> (r: Result<
    Vec<Pair>,
    LayoutError,
>)
    ensures
        pairs_seen(r) == as_fault(world_pairs(*artifact, *outer, ids@)),
    decreases *outer,
{
    match &outer.children {
        None => Ok(no_pairs()),
        Some(inners) => {
            if inners.len() == 0 {
                return Ok(no_pairs());
            }
            match &inners[0].inner.children {
                None => Ok(no_pairs()),
                Some(world) => walk_child_pairs(artifact, world, 0, ids),
            }
        },
    }
}

fn walk_camera_pairs(
    artifact: &SceneArtifact,
    kids: &Vec<LayoutChild>,
    i: usize,
    ids: &Vec<NodeId>,
) -> (r: Result<Vec<Pair>, LayoutError>)
    ensures
        pairs_seen(r) == as_fault(camera_pairs(*artifact, *kids, i as int, ids@)),
    decreases *kids, kids@.len() - i,
{
    if i >= kids.len() {
        return Ok(no_pairs());
    }
    let (world, screen) = split_spaces(artifact, ids);
    let index: usize = kids[i].render_index;
    let here = if index == 0 {
        match walk_world_pairs(artifact, &kids[i].inner, ids) {
            Ok(v) => v,
            Err(e) => {
                return Err(e);
            },
        }
    } else if index - 1 < ids.len() && world.len() < ids.len() - (index - 1) {
        match walk_pairs(artifact, ids[world.len() + (index - 1)], &kids[i].inner) {
            Ok(v) => v,
            Err(e) => {
                return Err(e);
            },
        }
    } else {
        no_pairs()
    };
    chained(here, walk_camera_pairs(artifact, kids, i + 1, ids))
}

/// A box of the layout tree on the page.
#[derive(Clone, Copy, Debug, PartialEq, Eq, Structural)]
pub struct PageBox {
    pub id: u64,
    pub rect: Rect,
}

/// The place of the first box among the first `n` with an identifier.
pub open spec fn page_rect(boxes: Seq<PageBox>, id: u64, n: nat) -> Option<Rect>
    decreases n,
{
    if n == 0 {
        None
    } else {
        match page_rect(boxes, id, (n - 1) as nat) {
            Some(rect) => Some(rect),
            None => if boxes[n - 1].id == id { Some(boxes[n - 1].rect) } else { None },
        }
    }
}

/// The places of the first `n` paired nodes, by node key; boxes without a place are left out.
pub open spec fn node_boxes(a: SceneArtifact, pairs: Seq<Pair>, boxes: Seq<PageBox>, n: nat) -> Map<
    Seq<char>,
    Rect,
>
    decreases n,
{
    if n == 0 {
        Map::empty()
    } else {
        let before = node_boxes(a, pairs, boxes, (n - 1) as nat);
        let pair = pairs[n - 1];
        match page_rect(boxes, pair.layout, boxes.len()) {
            Some(rect) => if pair.node < a.nodes@.len() {
                before.insert(a.nodes@[pair.node as int].key@, rect)
            } else {
                before
            },
            None => before,
        }
    }
}

proof fn page_rect_settles(boxes: Seq<PageBox>, id: u64, m: nat, n: nat)
    requires
        m < n <= boxes.len(),
        boxes[m as int].id == id,
        page_rect(boxes, id, m) is None,
    ensures
        page_rect(boxes, id, n) == Some(boxes[m as int].rect),
    decreases n - m,
{
    if m + 1 < n {
        page_rect_settles(boxes, id, m, (n - 1) as nat);
    }
}

fn find_page_rect(boxes: &Vec<PageBox>, id: u64) -> (r: Option<Rect>)
    ensures
        r == page_rect(boxes@, id, boxes@.len()),
{
    let mut i: usize = 0;
    while i < boxes.len()
        invariant
            i <= boxes@.len(),
            page_rect(boxes@, id, i as nat) is None,
        decreases boxes@.len() - i,
    {
        if boxes[i].id == id {
            proof {
                page_rect_settles(boxes@, id, i as nat, boxes@.len());
            }
            return Some(boxes[i].rect);
        }
        i = i + 1;
    }
    None
}

/// Where the nodes of a scene stand on the page, by node key.
pub fn layout_boxes(artifact: &SceneArtifact, root: &LayoutBox, boxes: &Vec<PageBox>) -> (r: Result<
    Vec<Entry<Rect>>,
    LayoutError,
>)
    ensures
        match as_fault(paired(*artifact, artifact.root, *root)) {
            Ok(pairs) => r is Ok && mapped(r->Ok_0@) == node_boxes(
                *artifact,
                pairs,
                boxes@,
                pairs.len(),
            ),
            Err(f) => r is Err && r->Err_0@ == f,
        },
        r matches Ok(table) ==> ascending(table@),
{
    let pairs = match walk_pairs(artifact, artifact.root, root) {
        Ok(pairs) => pairs,
        Err(e) => {
            return Err(e);
        },
    };
    let mut out: Vec<Entry<Rect>> = Vec::new();
    let mut i: usize = 0;
    assert(mapped(out@) =~= Map::empty());
    while i < pairs.len()
        invariant
            i <= pairs@.len(),
            mapped(out@) == node_boxes(*artifact, pairs@, boxes@, i as nat),
            ascending(out@),
        decreases pairs@.len() - i,
    {
        match find_page_rect(boxes, pairs[i].layout) {
            Some(rect) => {
                if pairs[i].node < artifact.nodes.len() {
                    store(&mut out, artifact.nodes[pairs[i].node].key.as_str(), rect);
                }
            },
            None => {},
        }
        i = i + 1;
    }
    Ok(out)
}

} // verus!
