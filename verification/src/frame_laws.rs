//! What is opened around a node: which groups, in which order, under which key they are found, and
//! which nodes are left out.

use vstd::prelude::*;

use crate::emitter::Recorded;
use crate::frame::{
    affine_entries, field_at, field_begun, field_step, id_key, node_begun, node_failure, owner_of,
    path_key, surface_at, Failure, FieldEntry, GlassOwnerKind, GlassOwners, GlassStep, NodeKey,
    NodePaint, PaintTree, PathKey, PlaneProjection, RelativeStep, SurfaceEntry,
};
use crate::recording::{Affine, BlendMode, Command, FilterOp, TableRange};
use crate::scalar::{num, Scalar, ONE, ZERO};
use crate::shell::{box_clip, drawable_ops, shell_painted};
use crate::table::find;

verus! {

/// One command where a condition holds, none where it does not.
pub open spec fn only_if(condition: bool, c: Command) -> Seq<Command> {
    if condition { seq![c] } else { seq![] }
}

/// Whether a position holds the first entry with a node's identifier.
pub open spec fn keyed_at(tree: PaintTree, np: NodePaint, k: int) -> bool {
    &&& 0 <= k < tree.keys@.len()
    &&& tree.keys@[k].id == np.node_id
    &&& forall|j: int| 0 <= j < k ==> (#[trigger] tree.keys@[j]).id != np.node_id
}

/// Whether no entry has a node's identifier.
pub open spec fn unkeyed(tree: PaintTree, np: NodePaint) -> bool {
    forall|j: int| 0 <= j < tree.keys@.len() ==> (#[trigger] tree.keys@[j]).id != np.node_id
}

proof fn first_ids(keys: Seq<NodeKey>, id: u64, k: int, n: nat)
    requires
        n <= keys.len(),
        0 <= k < keys.len(),
        keys[k].id == id,
        forall|j: int| 0 <= j < k ==> (#[trigger] keys[j]).id != id,
    ensures
        n <= k ==> id_key(keys, id, n) is None,
        n > k ==> id_key(keys, id, n) == Some(keys[k].key@),
    decreases n,
{
    if n > 0 {
        first_ids(keys, id, k, (n - 1) as nat);
    }
}

proof fn no_ids(keys: Seq<NodeKey>, id: u64, n: nat)
    requires
        n <= keys.len(),
        forall|j: int| 0 <= j < n ==> (#[trigger] keys[j]).id != id,
    ensures
        id_key(keys, id, n) is None,
    decreases n,
{
    if n > 0 {
        no_ids(keys, id, (n - 1) as nat);
    }
}

proof fn first_paths(keys: Seq<PathKey>, path: Seq<usize>, k: int, n: nat)
    requires
        n <= keys.len(),
        0 <= k < keys.len(),
        keys[k].path@ == path,
        forall|j: int| 0 <= j < k ==> (#[trigger] keys[j]).path@ != path,
    ensures
        n <= k ==> path_key(keys, path, n) is None,
        n > k ==> path_key(keys, path, n) == Some(keys[k].key@),
    decreases n,
{
    if n > 0 {
        first_paths(keys, path, k, (n - 1) as nat);
    }
}

proof fn no_paths(keys: Seq<PathKey>, path: Seq<usize>, n: nat)
    requires
        n <= keys.len(),
        forall|j: int| 0 <= j < n ==> (#[trigger] keys[j]).path@ != path,
    ensures
        path_key(keys, path, n) is None,
    decreases n,
{
    if n > 0 {
        no_paths(keys, path, (n - 1) as nat);
    }
}

/// A node goes by the key of the first entry with its identifier.
pub proof fn nodes_go_by_their_key(tree: PaintTree, np: NodePaint, k: int)
    requires
        keyed_at(tree, np, k),
    ensures
        tree.layout_key(np) == Some(tree.keys@[k].key@),
        tree.any_key(np) == Some(tree.keys@[k].key@),
        tree.label(np) == tree.keys@[k].key@,
{
    first_ids(tree.keys@, np.node_id, k, tree.keys@.len());
}

/// A node without a key of its own goes by the key of its render path, and reports name it by that path.
pub proof fn other_nodes_go_by_their_path(tree: PaintTree, np: NodePaint, k: int)
    requires
        unkeyed(tree, np),
        0 <= k < tree.render_keys@.len(),
        tree.render_keys@[k].path@ == np.path@,
        forall|j: int| 0 <= j < k ==> (#[trigger] tree.render_keys@[j]).path@ != np.path@,
    ensures
        tree.layout_key(np) is None,
        tree.any_key(np) == Some(tree.render_keys@[k].key@),
{
    no_ids(tree.keys@, np.node_id, tree.keys@.len());
    first_paths(tree.render_keys@, np.path@, k, tree.render_keys@.len());
}

/// A node with neither a key nor a known path goes by no key.
pub proof fn unknown_nodes_have_no_key(tree: PaintTree, np: NodePaint)
    requires
        unkeyed(tree, np),
        forall|j: int|
            0 <= j < tree.render_keys@.len() ==> (#[trigger] tree.render_keys@[j]).path@ != np.path@,
    ensures
        tree.layout_key(np) is None,
        tree.any_key(np) is None,
{
    no_ids(tree.keys@, np.node_id, tree.keys@.len());
    no_paths(tree.render_keys@, np.path@, tree.render_keys@.len());
}

/// A node is drawn where it is laid out, visible, on no culled plane and reachable from the cursor.
pub open spec fn is_drawn(
    r: Recorded,
    tree: PaintTree,
    np: NodePaint,
    key: Seq<char>,
    step: RelativeStep,
) -> bool {
    &&& np.facts.laid_out
    &&& !np.facts.invisible
    &&& match find(tree.planes@, key) {
        Some(plane) => !plane.hidden,
        None => true,
    }
    &&& step != RelativeStep::Singular || stands_still(r, np)
}

/// Whether the cursor already stands where a node does.
pub open spec fn stands_still(r: Recorded, np: NodePaint) -> bool {
    let (a, b) = (np.facts.transform, r.cur);
    a.a.eq_spec(b.a) && a.b.eq_spec(b.b) && a.c.eq_spec(b.c) && a.d.eq_spec(b.d) && a.x.eq_spec(b.x)
        && a.y.eq_spec(b.y)
}

/// Whether no glass surface belongs to a key.
pub open spec fn no_glass(tree: PaintTree, key: Seq<char>) -> bool {
    &&& forall|k: int|
        0 <= k < tree.glass.surfaces@.len() ==> (#[trigger] tree.glass.surfaces@[k]).node_key@ != key
    &&& find(tree.glass.foregrounds@, key) is None
}

/// Whether a node of this key lies in its own plane: neither on a plane of a 3D context nor turned.
pub open spec fn lies_flat(tree: PaintTree, key: Seq<char>) -> bool {
    &&& find(tree.planes@, key) is None
    &&& find(tree.layer_fx@, key) is None
}

/// The clip and mask of a key, and the cut of a subtree that another mask samples.
pub open spec fn cut_groups(tree: PaintTree, key: Seq<char>) -> Seq<Command> {
    let clip = find(tree.clips@, key);
    let mask = find(tree.masks@, key);
    only_if(
        clip is Some && clip->0.path is Some,
        Command::BeginClipPath { path: clip->0.path->0, fill_rule: clip->0.fill_rule },
    ) + only_if(
        mask is Some && mask->0.source is Paint,
        Command::BeginMaskPaint {
            paint: mask->0.source->Paint_0,
            mode: mask->0.mode,
            rect: mask->0.rect,
        },
    ) + only_if(
        mask is Some && mask->0.source is Image,
        Command::BeginMaskImage {
            image: mask->0.source->Image_0,
            mode: mask->0.mode,
            rect: mask->0.rect,
        },
    ) + only_if(
        mask is Some && mask->0.source is Subtree,
        Command::BeginSaveLayer { bounds: Some(mask->0.rect), alpha: num(ONE) },
    ) + only_if(
        exists|k: int|
            0 <= k < tree.masks@.len() && (#[trigger] tree.masks@[k]).value.source is Subtree
                && tree.masks@[k].value.source->Subtree_0@ == key,
        Command::BeginBlend { mode: BlendMode::DestinationIn },
    )
}

/// The steps that a key has registered, none where it has not.
pub open spec fn registered(entries: Option<Vec<FilterOp>>) -> Seq<FilterOp> {
    match entries {
        Some(ops) => ops@,
        None => seq![],
    }
}

/// Where steps stand in the filter table once they are recorded behind `n` others.
pub open spec fn behind(n: nat, ops: Seq<FilterOp>) -> TableRange {
    TableRange { start: n as usize, end: (n + ops.len()) as usize }
}

/// The backdrop filter of a node: the steps of its CSS list, then those that its key has registered.
pub open spec fn backdrop_group(np: NodePaint, more: Seq<FilterOp>, n: nat) -> Seq<Command> {
    let list = np.facts.backdrop_filters@;
    only_if(
        list.len() > 0 || more.len() > 0,
        Command::BeginBackdropFilter {
            filters: behind(n, drawable_ops(list, list.len()) + more),
            bounds: np.facts.border_box,
        },
    )
}

/// How many steps the backdrop filter of a node records.
pub open spec fn backdrop_size(np: NodePaint, more: Seq<FilterOp>) -> nat {
    let list = np.facts.backdrop_filters@;
    drawable_ops(list, list.len()).len() + more.len()
}

/// The layer of a node's opacity, its blend mode, the filter that its key has registered, and the filter
/// of its CSS list.
pub open spec fn effect_groups(np: NodePaint, more: Seq<FilterOp>, n: nat) -> Seq<Command> {
    let list = np.facts.filters@;
    only_if(
        np.facts.opacity.lt_spec(num(ONE)),
        Command::BeginSaveLayer { bounds: None, alpha: np.facts.opacity },
    ) + only_if(np.facts.blend is Mode, Command::BeginBlend { mode: np.facts.blend->Mode_0 })
        + only_if(more.len() > 0, Command::BeginFilter { filters: behind(n, more) }) + only_if(
        list.len() > 0,
        Command::BeginFilter {
            filters: behind(n + more.len(), drawable_ops(list, list.len())),
        },
    )
}

/// The groups of a plain node come in one order: its transform, its clip and mask, the backdrop filter,
/// the layer of its opacity, its blend mode, the advanced filter, the CSS filter and its shader.
pub open spec fn plain_groups(
    r: Recorded,
    tree: PaintTree,
    np: NodePaint,
    key: Seq<char>,
    step: RelativeStep,
) -> Seq<Command> {
    let more = registered(find(tree.backdrop_advanced@, key));
    only_if(
        !stands_still(r, np) && step is Moved,
        Command::BeginTransform { transform: step->Moved_0 },
    ) + cut_groups(tree, key) + backdrop_group(np, more, r.filters.len()) + effect_groups(
        np,
        registered(find(tree.advanced@, key)),
        r.filters.len() + backdrop_size(np, more),
    ) + only_if(
        find(tree.shaders@, key) is Some,
        Command::BeginShaderLayer {
            shader: find(tree.shaders@, key)->0,
            bounds: np.facts.border_box,
        },
    )
}

proof fn backdrops_agree(r: Recorded, tree: PaintTree, np: NodePaint, key: Seq<char>)
    requires
        tree.layout_key(np) == Some(key),
    ensures
        ({
            let more = registered(find(tree.backdrop_advanced@, key));
            let s = crate::frame::backdrop_opened(r, tree, np);
            &&& s.commands == r.commands + backdrop_group(np, more, r.filters.len())
            &&& s.filters.len() == r.filters.len() + backdrop_size(np, more)
            &&& s.materials == r.materials
            &&& s.painted == r.painted
            &&& s.cur == r.cur
        }),
{
    let more = registered(find(tree.backdrop_advanced@, key));
    let s = crate::frame::backdrop_opened(r, tree, np);
    assert(crate::frame::extra_ops(tree.backdrop_advanced@, Some(key)) =~= more);
    assert(s.commands =~= r.commands + backdrop_group(np, more, r.filters.len()));
}

proof fn effects_agree(r: Recorded, tree: PaintTree, np: NodePaint, key: Seq<char>)
    requires
        tree.layout_key(np) == Some(key),
    ensures
        ({
            let more = registered(find(tree.advanced@, key));
            let s = crate::frame::effects_opened(r, tree, np);
            &&& s.commands == r.commands + effect_groups(np, more, r.filters.len())
            &&& s.materials == r.materials
            &&& s.painted == r.painted
            &&& s.cur == r.cur
        }),
{
    let more = registered(find(tree.advanced@, key));
    let s = crate::frame::effects_opened(r, tree, np);
    assert(crate::frame::extra_ops(tree.advanced@, Some(key)) =~= more);
    assert(s.commands =~= r.commands + effect_groups(np, more, r.filters.len()));
}

proof fn no_surface(surfaces: Seq<SurfaceEntry>, key: Seq<char>, n: nat)
    requires
        n <= surfaces.len(),
        forall|k: int| 0 <= k < n ==> (#[trigger] surfaces[k]).node_key@ != key,
    ensures
        surface_at(surfaces, key, n) == n,
    decreases n,
{
    if n > 0 {
        no_surface(surfaces, key, (n - 1) as nat);
    }
}

proof fn first_surface(surfaces: Seq<SurfaceEntry>, key: Seq<char>, k: int, n: nat)
    requires
        n <= surfaces.len(),
        0 <= k < surfaces.len(),
        surfaces[k].node_key@ == key,
        forall|j: int| 0 <= j < k ==> (#[trigger] surfaces[j]).node_key@ != key,
    ensures
        n <= k ==> surface_at(surfaces, key, n) == n,
        n > k ==> surface_at(surfaces, key, n) == k,
    decreases n,
{
    if n > 0 {
        first_surface(surfaces, key, k, (n - 1) as nat);
    }
}

proof fn cuts_agree(tree: PaintTree, key: Seq<char>)
    ensures
        crate::frame::clip_commands(tree, Some(key)) == cut_groups(tree, key),
{
    let masks = tree.masks@;
    if crate::frame::is_mask_source(masks, key) {
        let k = choose|k: int| 0 <= k < masks.len() && crate::frame::samples(#[trigger] masks[k], key);
        assert(masks[k].value.source is Subtree);
    }
    if exists|k: int|
        0 <= k < masks.len() && (#[trigger] masks[k]).value.source is Subtree
            && masks[k].value.source->Subtree_0@ == key {
        let k = choose|k: int|
            0 <= k < masks.len() && (#[trigger] masks[k]).value.source is Subtree
                && masks[k].value.source->Subtree_0@ == key;
        assert(crate::frame::samples(masks[k], key));
    }
    assert(crate::frame::clip_commands(tree, Some(key)) =~= cut_groups(tree, key));
}

proof fn appended(
    a: Seq<Command>,
    b: Seq<Command>,
    c: Seq<Command>,
    d: Seq<Command>,
    e: Seq<Command>,
    f: Seq<Command>,
)
    ensures
        a + b + c + d + e + f == a + (b + c + d + e + f),
{
    assert(a + b + c + d + e + f =~= a + (b + c + d + e + f));
}

/// The state of a plain node before its shell is painted.
spec fn before_shell(
    r: Recorded,
    tree: PaintTree,
    np: NodePaint,
    key: Seq<char>,
    step: RelativeStep,
) -> Recorded {
    let r1 = crate::frame::owners_opened(r, np, step, GlassStep::Plain);
    let r2 = r1.put_all(crate::frame::clip_commands(tree, Some(key)));
    let r3 = crate::frame::backdrop_opened(r2, tree, np);
    let r4 = crate::frame::effects_opened(r3, tree, np);
    crate::frame::layer_opened(r4, tree, np, None)
}

proof fn plain_groups_agree(
    r: Recorded,
    tree: PaintTree,
    np: NodePaint,
    key: Seq<char>,
    step: RelativeStep,
)
    requires
        tree.layout_key(np) == Some(key),
        lies_flat(tree, key),
    ensures
        ({
            let s = before_shell(r, tree, np, key, step);
            &&& s.commands == r.commands + plain_groups(r, tree, np, key, step)
            &&& s.materials == r.materials
            &&& s.painted == r.painted
            &&& s.cur == if step is Moved && !stands_still(r, np) {
                np.facts.transform
            } else {
                r.cur
            }
        }),
{
    let r1 = crate::frame::owners_opened(r, np, step, GlassStep::Plain);
    let r2 = r1.put_all(crate::frame::clip_commands(tree, Some(key)));
    let r3 = crate::frame::backdrop_opened(r2, tree, np);
    let r4 = crate::frame::effects_opened(r3, tree, np);
    let r5 = crate::frame::layer_opened(r4, tree, np, None);
    let more = registered(find(tree.backdrop_advanced@, key));
    let moved = only_if(
        !stands_still(r, np) && step is Moved,
        Command::BeginTransform { transform: step->Moved_0 },
    );
    let shader = only_if(
        find(tree.shaders@, key) is Some,
        Command::BeginShaderLayer {
            shader: find(tree.shaders@, key)->0,
            bounds: np.facts.border_box,
        },
    );
    cuts_agree(tree, key);
    backdrops_agree(r2, tree, np, key);
    effects_agree(r3, tree, np, key);
    assert(r1.commands =~= r.commands + moved);
    assert(r5.commands =~= r4.commands + shader);
    appended(
        r.commands,
        moved,
        cut_groups(tree, key),
        backdrop_group(np, more, r.filters.len()),
        effect_groups(
            np,
            registered(find(tree.advanced@, key)),
            r.filters.len() + backdrop_size(np, more),
        ),
        shader,
    );
}

proof fn shells_follow_groups(
    r: Recorded,
    tree: PaintTree,
    np: NodePaint,
    key: Seq<char>,
    step: RelativeStep,
)
    requires
        tree.layout_key(np) == Some(key),
        tree.any_key(np) == Some(key),
        tree.label(np) == key,
        is_drawn(r, tree, np, key, step),
        no_glass(tree, key),
        lies_flat(tree, key),
    ensures
        node_failure(r, tree, np, step) is None,
        node_begun(r, tree, np, step).commands == shell_painted(
            before_shell(r, tree, np, key, step),
            key,
            np.facts.shell,
            tree.reserved,
            tree.limit,
        ).commands + only_if(
            np.facts.clips_overflow,
            box_clip(np.facts.inner, np.facts.inner_radii),
        ),
{
    no_surface(tree.glass.surfaces@, key, tree.glass.surfaces@.len());
    let s = before_shell(r, tree, np, key, step);
    let shell = shell_painted(s, key, np.facts.shell, tree.reserved, tree.limit);
    let n = node_begun(r, tree, np, step);
    if np.facts.clips_overflow {
        assert(n.commands == shell.commands.push(box_clip(np.facts.inner, np.facts.inner_radii)));
        assert(n.commands =~= shell.commands + seq![box_clip(np.facts.inner, np.facts.inner_radii)]);
    } else {
        assert(n.commands == shell.commands);
        assert(shell.commands + Seq::<Command>::empty() =~= shell.commands);
    }
}

/// A plain node opens its groups in their order, then the shell is painted, then the overflow is cut.
pub proof fn groups_are_opened_in_order(
    r: Recorded,
    tree: PaintTree,
    np: NodePaint,
    k: int,
    step: RelativeStep,
)
    requires
        keyed_at(tree, np, k),
        is_drawn(r, tree, np, tree.keys@[k].key@, step),
        no_glass(tree, tree.keys@[k].key@),
        lies_flat(tree, tree.keys@[k].key@),
    ensures
        node_failure(r, tree, np, step) is None,
        exists|s: Recorded|
            {
                &&& s.commands == r.commands + plain_groups(r, tree, np, tree.keys@[k].key@, step)
                &&& s.materials == r.materials
                &&& s.painted == r.painted
                &&& s.cur == if step is Moved && !stands_still(r, np) {
                    np.facts.transform
                } else {
                    r.cur
                }
                &&& node_begun(r, tree, np, step).commands == (#[trigger] shell_painted(
                    s,
                    tree.keys@[k].key@,
                    np.facts.shell,
                    tree.reserved,
                    tree.limit,
                )).commands + only_if(
                    np.facts.clips_overflow,
                    box_clip(np.facts.inner, np.facts.inner_radii),
                )
            },
{
    let key = tree.keys@[k].key@;
    nodes_go_by_their_key(tree, np, k);
    plain_groups_agree(r, tree, np, key, step);
    shells_follow_groups(r, tree, np, key, step);
}

/// Nothing is recorded of a node that is not laid out, hidden, or on a culled plane.
pub proof fn hidden_nodes_record_nothing(
    r: Recorded,
    tree: PaintTree,
    np: NodePaint,
    k: int,
    step: RelativeStep,
)
    requires
        keyed_at(tree, np, k),
        !np.facts.laid_out || np.facts.invisible || (find(tree.planes@, tree.keys@[k].key@) is Some
            && find(tree.planes@, tree.keys@[k].key@)->0.hidden),
    ensures
        node_failure(r, tree, np, step) is None,
        node_begun(r, tree, np, step) == r,
{
    nodes_go_by_their_key(tree, np, k);
}

/// A node under a transform that cannot be undone is reported, and nothing of it is drawn.
pub proof fn stranded_nodes_are_reported(r: Recorded, tree: PaintTree, np: NodePaint, k: int)
    requires
        keyed_at(tree, np, k),
        np.facts.laid_out,
        !np.facts.invisible,
        find(tree.planes@, tree.keys@[k].key@) is None,
        !stands_still(r, np),
        !r.notes.contains(
            (tree.keys@[k].key@, "degenerate parent transform (not invertible)"@),
        ),
    ensures
        node_failure(r, tree, np, RelativeStep::Singular) is None,
        node_begun(r, tree, np, RelativeStep::Singular).commands == r.commands,
        node_begun(r, tree, np, RelativeStep::Singular).notes == r.notes.push(
            (tree.keys@[k].key@, "degenerate parent transform (not invertible)"@),
        ),
{
    nodes_go_by_their_key(tree, np, k);
}

/// Whether a node has nothing around it but what is asked of below: no clip, mask, filter, opacity, blend
/// mode or shader, and the cursor stands where it does.
pub open spec fn is_bare(r: Recorded, tree: PaintTree, np: NodePaint, key: Seq<char>) -> bool {
    &&& np.facts.laid_out
    &&& !np.facts.invisible
    &&& stands_still(r, np)
    &&& find(tree.clips@, key) is None
    &&& find(tree.masks@, key) is None
    &&& forall|k: int| 0 <= k < tree.masks@.len() ==> !((#[trigger] tree.masks@[k]).value.source is Subtree)
    &&& find(tree.backdrop_advanced@, key) is None
    &&& find(tree.advanced@, key) is None
    &&& find(tree.shaders@, key) is None
    &&& np.facts.backdrop_filters@.len() == 0
    &&& np.facts.filters@.len() == 0
    &&& !np.facts.opacity.lt_spec(num(ONE))
    &&& !(np.facts.blend is Mode)
    &&& !np.facts.clips_overflow
}

proof fn bare_groups(r: Recorded, tree: PaintTree, np: NodePaint, k: int)
    requires
        keyed_at(tree, np, k),
        is_bare(r, tree, np, tree.keys@[k].key@),
    ensures
        crate::frame::clip_commands(tree, tree.layout_key(np)) == Seq::<Command>::empty(),
{
    nodes_go_by_their_key(tree, np, k);
    let key = tree.keys@[k].key@;
    if crate::frame::is_mask_source(tree.masks@, key) {
        let j = choose|j: int|
            0 <= j < tree.masks@.len() && crate::frame::samples(#[trigger] tree.masks@[j], key);
        assert(tree.masks@[j].value.source is Subtree);
    }
    assert(crate::frame::clip_commands(tree, tree.layout_key(np)) =~= Seq::<Command>::empty());
}

/// A node on a projected plane is drawn through the homography of the plane, its shell within it.
pub proof fn planes_are_projected(
    r: Recorded,
    tree: PaintTree,
    np: NodePaint,
    k: int,
    step: RelativeStep,
)
    requires
        keyed_at(tree, np, k),
        is_bare(r, tree, np, tree.keys@[k].key@),
        no_glass(tree, tree.keys@[k].key@),
        find(tree.planes@, tree.keys@[k].key@) is Some,
        !find(tree.planes@, tree.keys@[k].key@)->0.hidden,
        find(tree.planes@, tree.keys@[k].key@)->0.project,
        find(tree.layer_fx@, tree.keys@[k].key@) is None,
    ensures
        match find(tree.planes@, tree.keys@[k].key@)->0.projection {
            PlaneProjection::Matrix(m) => node_failure(r, tree, np, step) is None && node_begun(
                r,
                tree,
                np,
                step,
            ).commands == shell_painted(
                Recorded { commands: r.commands.push(Command::BeginPerspective { matrix: m }), ..r },
                tree.keys@[k].key@,
                np.facts.shell,
                tree.reserved,
                tree.limit,
            ).commands,
            PlaneProjection::NonInvertible => node_failure(r, tree, np, step) == Some(
                Failure::BadStyle(
                    tree.keys@[k].key@,
                    "CSS 3D plane has a non-invertible 2D layout transform"@,
                ),
            ),
            PlaneProjection::Degenerate => node_failure(r, tree, np, step) == Some(
                Failure::BadStyle(
                    tree.keys@[k].key@,
                    "CSS 3D plane is degenerate or crosses the projection plane"@,
                ),
            ),
        },
{
    let key = tree.keys@[k].key@;
    nodes_go_by_their_key(tree, np, k);
    no_surface(tree.glass.surfaces@, key, tree.glass.surfaces@.len());
    bare_groups(r, tree, np, k);
    assert(r.commands + Seq::<Command>::empty() =~= r.commands);
}

/// A layer casts its contact shadow first; where it is turned about x or y it is then drawn through its
/// homography, and where that could not be had the node fails with the reason.
pub proof fn layers_are_turned(
    r: Recorded,
    tree: PaintTree,
    np: NodePaint,
    k: int,
    step: RelativeStep,
)
    requires
        keyed_at(tree, np, k),
        is_bare(r, tree, np, tree.keys@[k].key@),
        no_glass(tree, tree.keys@[k].key@),
        find(tree.planes@, tree.keys@[k].key@) is None,
        find(tree.layer_fx@, tree.keys@[k].key@) is Some,
    ensures
        ({
            let key = tree.keys@[k].key@;
            let fx = find(tree.layer_fx@, key)->0;
            let turned = num(0x3eb0_c6f7_a0b5_ed8d).lt_spec(fx.rotate_x_deg.abs_spec()) || num(
                0x3eb0_c6f7_a0b5_ed8d,
            ).lt_spec(fx.rotate_y_deg.abs_spec());
            if turned && fx.layer is Err {
                node_failure(r, tree, np, step) == Some(Failure::BadStyle(key, fx.layer->Err_0@))
            } else {
                &&& node_failure(r, tree, np, step) is None
                &&& node_begun(r, tree, np, step).commands == shell_painted(
                    Recorded {
                        commands: r.commands + only_if(
                            num(ZERO).lt_spec(fx.contact_shadow),
                            Command::Shadow { shadow: fx.contact },
                        ) + only_if(
                            turned && fx.layer->Ok_0 is Some,
                            Command::BeginPerspective { matrix: fx.layer->Ok_0->0 },
                        ),
                        ..r
                    },
                    key,
                    np.facts.shell,
                    tree.reserved,
                    tree.limit,
                ).commands
            }
        }),
{
    let key = tree.keys@[k].key@;
    nodes_go_by_their_key(tree, np, k);
    no_surface(tree.glass.surfaces@, key, tree.glass.surfaces@.len());
    bare_groups(r, tree, np, k);
    let fx = find(tree.layer_fx@, key)->0;
    let turned = num(0x3eb0_c6f7_a0b5_ed8d).lt_spec(fx.rotate_x_deg.abs_spec()) || num(
        0x3eb0_c6f7_a0b5_ed8d,
    ).lt_spec(fx.rotate_y_deg.abs_spec());
    if !(turned && fx.layer is Err) {
        let p = crate::frame::perspective_step(tree, Some(key))->Ok_0;
        let r5 = crate::frame::layer_opened(r, tree, np, p);
        assert(r.commands + Seq::<Command>::empty() =~= r.commands);
        assert(r5.commands =~= r.commands + only_if(
            num(ZERO).lt_spec(fx.contact_shadow),
            Command::Shadow { shadow: fx.contact },
        ) + only_if(
            turned && fx.layer->Ok_0 is Some,
            Command::BeginPerspective { matrix: fx.layer->Ok_0->0 },
        ));
    }
}

/// A glass surface of its own opens its material and then the marker of its foreground; it has no shell,
/// and its material is the innermost one from there on.
pub proof fn surfaces_open_their_material(
    r: Recorded,
    tree: PaintTree,
    np: NodePaint,
    k: int,
    step: RelativeStep,
    s: int,
)
    requires
        keyed_at(tree, np, k),
        is_bare(r, tree, np, tree.keys@[k].key@),
        lies_flat(tree, tree.keys@[k].key@),
        !np.facts.has_shape_mask,
        0 <= s < tree.glass.surfaces@.len(),
        tree.glass.surfaces@[s].node_key@ == tree.keys@[k].key@,
        forall|j: int|
            0 <= j < s ==> (#[trigger] tree.glass.surfaces@[j]).node_key@ != tree.keys@[k].key@,
        tree.glass.surfaces@[s].field_id is None,
    ensures
        ({
            let key = tree.keys@[k].key@;
            let id = tree.glass.surfaces@[s].surface_id@;
            let material = find(tree.glass.materials@, id);
            let marker = find(tree.glass.foregrounds@, key);
            let owned = material is Some && material->0.owner_kind == GlassOwnerKind::Independent
                && material->0.owner_id@ == id;
            let marked = marker is Some && marker->0.owner_id@ == id && marker->0.surface_id@ == id;
            if owned && marked {
                &&& node_failure(r, tree, np, step) is None
                &&& node_begun(r, tree, np, step).commands == r.commands + seq![
                    Command::BeginMotionGlass { program: material->0.program },
                    Command::BeginMotionGlassForeground { program: marker->0.program },
                ]
                &&& node_begun(r, tree, np, step).materials == r.materials.push(id)
                &&& node_begun(r, tree, np, step).cur == r.cur
            } else {
                node_failure(r, tree, np, step) is Some
            }
        }),
{
    let key = tree.keys@[k].key@;
    nodes_go_by_their_key(tree, np, k);
    first_surface(tree.glass.surfaces@, key, s, tree.glass.surfaces@.len());
    bare_groups(r, tree, np, k);
    let id = tree.glass.surfaces@[s].surface_id@;
    let material = find(tree.glass.materials@, id);
    let marker = find(tree.glass.foregrounds@, key);
    if node_failure(r, tree, np, step) is None {
        assert(node_begun(r, tree, np, step).commands =~= r.commands + seq![
            Command::BeginMotionGlass { program: material->0.program },
            Command::BeginMotionGlassForeground { program: marker->0.program },
        ]);
    }
}

/// A member of a glass field opens the marker of its foreground alone, directly within the field's
/// material, and fails anywhere else.
pub proof fn members_stand_in_their_field(
    r: Recorded,
    tree: PaintTree,
    np: NodePaint,
    k: int,
    step: RelativeStep,
    s: int,
)
    requires
        keyed_at(tree, np, k),
        is_bare(r, tree, np, tree.keys@[k].key@),
        lies_flat(tree, tree.keys@[k].key@),
        !np.facts.has_shape_mask,
        0 <= s < tree.glass.surfaces@.len(),
        tree.glass.surfaces@[s].node_key@ == tree.keys@[k].key@,
        forall|j: int|
            0 <= j < s ==> (#[trigger] tree.glass.surfaces@[j]).node_key@ != tree.keys@[k].key@,
        tree.glass.surfaces@[s].field_id is Some,
    ensures
        ({
            let key = tree.keys@[k].key@;
            let id = tree.glass.surfaces@[s].surface_id@;
            let field = tree.glass.surfaces@[s].field_id->0@;
            let marker = find(tree.glass.foregrounds@, key);
            let inside = r.materials.len() > 0 && r.materials.last() == field;
            let marked = marker is Some && marker->0.owner_id@ == field && marker->0.surface_id@
                == id;
            if inside && marked {
                &&& node_failure(r, tree, np, step) is None
                &&& node_begun(r, tree, np, step).commands == r.commands + seq![
                    Command::BeginMotionGlassForeground { program: marker->0.program },
                ]
                &&& node_begun(r, tree, np, step).materials == r.materials
                &&& node_begun(r, tree, np, step).cur == r.cur
            } else {
                node_failure(r, tree, np, step) is Some
            }
        }),
{
    let key = tree.keys@[k].key@;
    nodes_go_by_their_key(tree, np, k);
    first_surface(tree.glass.surfaces@, key, s, tree.glass.surfaces@.len());
    bare_groups(r, tree, np, k);
    let marker = find(tree.glass.foregrounds@, key);
    if node_failure(r, tree, np, step) is None {
        assert(node_begun(r, tree, np, step).commands =~= r.commands + seq![
            Command::BeginMotionGlassForeground { program: marker->0.program },
        ]);
    }
}

proof fn first_field(fields: Seq<FieldEntry>, id: Seq<char>, k: int, n: nat)
    requires
        n <= fields.len(),
        0 <= k < fields.len(),
        fields[k].field_id@ == id,
        forall|j: int| 0 <= j < k ==> (#[trigger] fields[j]).field_id@ != id,
    ensures
        n <= k ==> field_at(fields, id, n) == n,
        n > k ==> field_at(fields, id, n) == k,
    decreases n,
{
    if n > 0 {
        first_field(fields, id, k, (n - 1) as nat);
    }
}

/// A glass field stands under the owner transform of its first entry and opens the material that was
/// prepared for it as a field.
pub proof fn fields_open_their_material(glass: GlassOwners, id: Seq<char>, k: int)
    requires
        0 <= k < glass.fields@.len(),
        glass.fields@[k].field_id@ == id,
        forall|j: int| 0 <= j < k ==> (#[trigger] glass.fields@[j]).field_id@ != id,
    ensures
        owner_of(glass, id) == glass.fields@[k].owner,
        ({
            let material = find(glass.materials@, id);
            let owned = material is Some && material->0.owner_kind == GlassOwnerKind::Field
                && material->0.owner_id@ == id;
            if glass.fields@[k].owner is Some && owned {
                field_step(glass, id) == Ok::<(Affine, usize), Seq<char>>(
                    (glass.fields@[k].owner->0, material->0.program),
                )
            } else {
                field_step(glass, id) is Err
            }
        }),
{
    first_field(glass.fields@, id, k, glass.fields@.len());
}

/// A field moves the cursor to its owner where that is a move, opens its material and becomes the
/// innermost one.
pub proof fn fields_move_the_cursor(
    r: Recorded,
    id: Seq<char>,
    owner: Affine,
    program: usize,
    moved: Affine,
)
    ensures
        field_begun(r, id, owner, program, RelativeStep::Moved(moved)).commands == r.commands + seq![
            Command::BeginTransform { transform: moved },
            Command::BeginMotionGlass { program },
        ],
        field_begun(r, id, owner, program, RelativeStep::Moved(moved)).cur == owner,
        field_begun(r, id, owner, program, RelativeStep::Moved(moved)).materials
            == r.materials.push(id),
        field_begun(r, id, owner, program, RelativeStep::Identity).commands == r.commands.push(
            Command::BeginMotionGlass { program },
        ),
        field_begun(r, id, owner, program, RelativeStep::Identity).cur == r.cur,
        field_begun(r, id, owner, program, RelativeStep::Identity).materials == r.materials.push(
            id,
        ),
{
    assert(field_begun(r, id, owner, program, RelativeStep::Moved(moved)).commands =~= r.commands
        + seq![
        Command::BeginTransform { transform: moved },
        Command::BeginMotionGlass { program },
    ]);
}

/// An affine matrix in rows holds its linear part in the first two columns and its translation in the
/// third: what is read of it maps (1, 0) to the first column, (0, 1) to the second and the origin to the
/// third.
pub proof fn affine_matrices_are_read_by_columns(m: Seq<Scalar>, r: Affine)
    requires
        m.len() == 9,
        affine_entries(m) == Some(r),
    ensures
        r.a == m[0] && r.b == m[3],
        r.c == m[1] && r.d == m[4],
        r.x == m[2] && r.y == m[5],
        forall|i: int| 0 <= i < 9 ==> (#[trigger] m[i]).finite(),
        m[6].magnitude() <= 0x3e11_2e0b_e826_d695,
        m[7].magnitude() <= 0x3e11_2e0b_e826_d695,
        0x3fef_ffff_ff76_8fa1 <= m[8].order() <= 0x3ff0_0000_0044_b82f,
        forall|i: int| 0 <= i < 6 ==> (#[trigger] m[i]).magnitude() <= 0x47ef_ffff_e000_0000,
{
    assert(m[6].finite() && m[7].finite() && m[8].finite());
}

} // verus!
