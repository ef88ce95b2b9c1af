//! Which glass field each node of the scene tree belongs to.

use vstd::prelude::*;

use crate::artifact::{NodeId, NodeKind, SceneArtifact};
use crate::glass::GlassFieldId;

verus! {

pub open spec fn is_field(a: SceneArtifact, at: int) -> bool {
    0 <= at < a.nodes@.len() && a.nodes@[at].kind is GlassField
}

pub open spec fn is_glass(a: SceneArtifact, at: int) -> bool {
    0 <= at < a.nodes@.len() && a.nodes@[at].kind is Glass
}

/// A walk over the scene tree: nodes still to visit with the field around them, which nodes were
/// seen, the field node found for each, and whether the tree is sound so far.
pub struct Walk {
    pub stack: Seq<(usize, Option<usize>)>,
    pub seen: Seq<bool>,
    pub field: Seq<Option<usize>>,
    pub sound: bool,
}

/// The field of a node, given the field around it.
pub open spec fn entered(a: SceneArtifact, at: usize, around: Option<usize>) -> Option<usize> {
    if is_field(a, at as int) { Some(at) } else { around }
}

/// The field around the children of a node: a surface keeps its foreground out of its field.
pub open spec fn handed_down(a: SceneArtifact, at: usize, field: Option<usize>) -> Option<usize> {
    if is_glass(a, at as int) { None } else { field }
}

/// Children among the first `n`, last first, each with the field around it; those that are no nodes
/// are left out.
pub open spec fn pending(a: SceneArtifact, ids: Seq<NodeId>, field: Option<usize>, n: nat) -> Seq<
    (usize, Option<usize>),
>
    decreases n,
{
    if n == 0 {
        Seq::empty()
    } else if ids[n - 1].0 < a.nodes@.len() {
        seq![(ids[n - 1].0 as usize, field)] + pending(a, ids, field, (n - 1) as nat)
    } else {
        pending(a, ids, field, (n - 1) as nat)
    }
}

/// Whether all children are nodes.
pub open spec fn all_nodes(a: SceneArtifact, ids: Seq<NodeId>) -> bool {
    forall|k: int| 0 <= k < ids.len() ==> (#[trigger] ids[k]).0 < a.nodes@.len()
}

/// One step of the walk: the last pending node is visited, and its children become pending. A node
/// reached twice, or with a bad child, makes the tree unsound.
pub open spec fn step(a: SceneArtifact, w: Walk) -> Walk {
    if w.stack.len() == 0 {
        w
    } else {
        let (at, around) = w.stack.last();
        let rest = w.stack.drop_last();
        if w.seen[at as int] {
            Walk { stack: rest, sound: false, ..w }
        } else {
            let field = entered(a, at, around);
            let seen = w.seen.update(at as int, true);
            let fields = w.field.update(at as int, field);
            match a.children_of(at as int) {
                None => Walk { stack: rest, seen, field: fields, sound: false },
                Some(ids) => Walk {
                    stack: rest + pending(a, ids, handed_down(a, at, field), ids.len()),
                    seen,
                    field: fields,
                    sound: w.sound && all_nodes(a, ids),
                },
            }
        }
    }
}

/// The walk before its first step: only the root is pending.
pub open spec fn start(a: SceneArtifact) -> Walk {
    Walk {
        stack: if a.root.0 < a.nodes@.len() {
            seq![(a.root.0 as usize, None)]
        } else {
            Seq::empty()
        },
        seen: Seq::new(a.nodes@.len(), |i: int| false),
        field: Seq::new(a.nodes@.len(), |i: int| None),
        sound: a.root.0 < a.nodes@.len(),
    }
}

/// The walk after `n` steps.
pub open spec fn walked(a: SceneArtifact, n: nat) -> Walk
    decreases n,
{
    if n == 0 { start(a) } else { step(a, walked(a, (n - 1) as nat)) }
}

/// Whether a walk has ended.
pub open spec fn ended(w: Walk) -> bool {
    w.stack.len() == 0
}

pub open spec fn all_seen(w: Walk) -> bool {
    forall|i: int| 0 <= i < w.seen.len() ==> #[trigger] w.seen[i]
}

/// Field nodes of all nodes, and whether the scene is one tree that reaches every node once.
pub struct Membership {
    pub field: Vec<Option<usize>>,
    pub is_tree: bool,
}

/// Whether a membership is what a complete walk finds.
pub open spec fn found(a: SceneArtifact, m: Membership) -> bool {
    exists|n: nat| #[trigger]
        ended(walked(a, n)) && m.field@ == walked(a, n).field && m.is_tree == (walked(a, n).sound
            && all_seen(walked(a, n)))
}

/// Whether every node has the field of its parent, unless it is a field itself or lies in a
/// surface's foreground, and the root has none but itself.
pub open spec fn nearest(a: SceneArtifact, field: Seq<Option<usize>>) -> bool {
    &&& field.len() == a.nodes@.len()
    &&& a.root.0 < a.nodes@.len()
    &&& field[a.root.0 as int] == entered(a, a.root.0 as usize, None)
    &&& forall|p: int| 0 <= p < a.nodes@.len() ==> #[trigger] passes_on(a, field, p)
}

/// Whether the children of a node have the field that it hands down.
pub open spec fn passes_on(a: SceneArtifact, field: Seq<Option<usize>>, p: int) -> bool {
    a.children_of(p) matches Some(ids) && forall|k: int|
        0 <= k < ids.len() ==> (#[trigger] ids[k]).0 < a.nodes@.len() && field[ids[k].0 as int]
            == entered(a, ids[k].0 as usize, handed_down(a, p as usize, field[p]))
}

spec fn count_unseen(seen: Seq<bool>, n: nat) -> nat
    decreases n,
{
    if n == 0 {
        0
    } else {
        count_unseen(seen, (n - 1) as nat) + (if seen[n - 1] { 0nat } else { 1nat })
    }
}

proof fn seeing_counts(seen: Seq<bool>, at: int, n: nat)
    requires
        0 <= at < seen.len(),
        !seen[at],
        n <= seen.len(),
    ensures
        count_unseen(seen.update(at, true), n) == count_unseen(seen, n) - (if at < n {
            1int
        } else {
            0
        }),
        at < n ==> count_unseen(seen, n) > 0,
    decreases n,
{
    if n > 0 {
        seeing_counts(seen, at, (n - 1) as nat);
    }
}

spec fn on_stack(stack: Seq<(usize, Option<usize>)>, e: (usize, Option<usize>)) -> bool {
    exists|i: int| 0 <= i < stack.len() && #[trigger] stack[i] == e
}

/// Whether an edge is settled: its child is pending with the right field, or has it.
spec fn edge_kept(w: Walk, a: SceneArtifact, child: usize, around: Option<usize>) -> bool {
    on_stack(w.stack, (child, around)) || (w.seen[child as int] && w.field[child as int] == entered(
        a,
        child,
        around,
    ))
}

spec fn edges_kept(a: SceneArtifact, w: Walk, p: int) -> bool {
    match a.children_of(p) {
        None => false,
        Some(ids) => all_nodes(a, ids) && forall|k: int|
            0 <= k < ids.len() ==> edge_kept(
                w,
                a,
                (#[trigger] ids[k]).0 as usize,
                handed_down(a, p as usize, w.field[p]),
            ),
    }
}

/// What a walk keeps.
spec fn walk_ok(a: SceneArtifact, w: Walk) -> bool {
    &&& w.seen.len() == a.nodes@.len()
    &&& w.field.len() == a.nodes@.len()
    &&& forall|i: int| 0 <= i < w.stack.len() ==> (#[trigger] w.stack[i]).0 < a.nodes@.len()
    &&& w.sound ==> a.root.0 < a.nodes@.len() && edge_kept(w, a, a.root.0 as usize, None)
    &&& w.sound ==> forall|p: int| 0 <= p < w.seen.len() && #[trigger] w.seen[p] ==> edges_kept(a, w, p)
}

proof fn start_ok(a: SceneArtifact)
    ensures
        walk_ok(a, start(a)),
{
    let w = start(a);
    if w.sound {
        assert(w.stack[0] == (a.root.0 as usize, None::<usize>));
    }
}

proof fn pending_holds(a: SceneArtifact, ids: Seq<NodeId>, field: Option<usize>, n: nat, k: int)
    requires
        0 <= k < n <= ids.len(),
        all_nodes(a, ids),
    ensures
        on_stack(pending(a, ids, field, n), (ids[k].0 as usize, field)),
    decreases n,
{
    let here = seq![(ids[n - 1].0 as usize, field)];
    let more = pending(a, ids, field, (n - 1) as nat);
    assert(ids[n - 1].0 < a.nodes@.len());
    assert(pending(a, ids, field, n) == here + more);
    if k == n - 1 {
        assert((here + more)[0] == (ids[k].0 as usize, field));
    } else {
        pending_holds(a, ids, field, (n - 1) as nat, k);
        let i = choose|i: int| 0 <= i < more.len() && #[trigger] more[i] == (ids[k].0 as usize, field);
        assert((here + more)[i + 1] == more[i]);
    }
}

proof fn pending_in_range(a: SceneArtifact, ids: Seq<NodeId>, field: Option<usize>, n: nat)
    requires
        n <= ids.len(),
    ensures
        forall|i: int|
            0 <= i < pending(a, ids, field, n).len() ==> (#[trigger] pending(a, ids, field, n)[i]).0
                < a.nodes@.len(),
    decreases n,
{
    if n > 0 {
        pending_in_range(a, ids, field, (n - 1) as nat);
        let more = pending(a, ids, field, (n - 1) as nat);
        if ids[n - 1].0 < a.nodes@.len() {
            let here = seq![(ids[n - 1].0 as usize, field)];
            assert forall|i: int| 0 <= i < (here + more).len() implies (#[trigger] (here
                + more)[i]).0 < a.nodes@.len() by {
                if i > 0 {
                    assert((here + more)[i] == more[i - 1]);
                }
            }
        }
    }
}

proof fn edge_stays(
    a: SceneArtifact,
    w: Walk,
    next: Walk,
    at: usize,
    around: Option<usize>,
    child: usize,
    from: Option<usize>,
)
    requires
        w.stack.len() > 0,
        w.stack.last() == (at, around),
        w.seen.len() == a.nodes@.len(),
        w.field.len() == a.nodes@.len(),
        at < w.seen.len(),
        child < w.seen.len(),
        !w.seen[at as int],
        next.seen == w.seen.update(at as int, true),
        next.field == w.field.update(at as int, entered(a, at, around)),
        exists|more: Seq<(usize, Option<usize>)>| next.stack == #[trigger] (w.stack.drop_last() + more),
        edge_kept(w, a, child, from),
    ensures
        edge_kept(next, a, child, from),
{
    let more = choose|more: Seq<(usize, Option<usize>)>|
        next.stack == #[trigger] (w.stack.drop_last() + more);
    if on_stack(w.stack, (child, from)) {
        let i = choose|i: int| 0 <= i < w.stack.len() && #[trigger] w.stack[i] == (child, from);
        if i < w.stack.len() - 1 {
            assert(next.stack[i] == (child, from));
        }
    }
}

proof fn step_ok(a: SceneArtifact, w: Walk)
    requires
        walk_ok(a, w),
        w.stack.len() > 0,
    ensures
        walk_ok(a, step(a, w)),
{
    let (at, around) = w.stack.last();
    let rest = w.stack.drop_last();
    let next = step(a, w);
    assert(w.stack[w.stack.len() - 1].0 < a.nodes@.len());
    assert forall|i: int| 0 <= i < rest.len() implies (#[trigger] rest[i]).0 < a.nodes@.len() by {
        assert(rest[i] == w.stack[i]);
    }
    if !w.seen[at as int] {
        let field = entered(a, at, around);
        let kids = a.children_of(at as int);
        match kids {
            None => {},
            Some(ids) => {
                let down = handed_down(a, at, field);
                let more = pending(a, ids, down, ids.len());
                pending_in_range(a, ids, down, ids.len());
                assert forall|i: int| 0 <= i < next.stack.len() implies (#[trigger] next.stack[i]).0
                    < a.nodes@.len() by {
                    if i >= rest.len() {
                        assert(next.stack[i] == more[i - rest.len()]);
                    }
                }
                if next.sound {
                    assert(next.stack == w.stack.drop_last() + more);
                    edge_stays(a, w, next, at, around, a.root.0 as usize, None);
                    assert forall|p: int|
                        0 <= p < next.seen.len() && #[trigger] next.seen[p] implies edges_kept(
                        a,
                        next,
                        p,
                    ) by {
                        if p == at {
                            assert forall|k: int| 0 <= k < ids.len() implies edge_kept(
                                next,
                                a,
                                (#[trigger] ids[k]).0 as usize,
                                down,
                            ) by {
                                pending_holds(a, ids, down, ids.len(), k);
                                let e = (ids[k].0 as usize, down);
                                let i = choose|i: int| 0 <= i < more.len() && #[trigger] more[i] == e;
                                assert(next.stack[rest.len() + i] == e);
                            }
                        } else {
                            assert(w.seen[p]);
                            assert(edges_kept(a, w, p));
                            let theirs = a.children_of(p)->0;
                            assert(next.field[p] == w.field[p]);
                            assert forall|k: int| 0 <= k < theirs.len() implies edge_kept(
                                next,
                                a,
                                (#[trigger] theirs[k]).0 as usize,
                                handed_down(a, p as usize, next.field[p]),
                            ) by {
                                edge_stays(
                                    a,
                                    w,
                                    next,
                                    at,
                                    around,
                                    theirs[k].0 as usize,
                                    handed_down(a, p as usize, w.field[p]),
                                );
                            }
                        }
                    }
                }
            },
        }
    }
}

proof fn end_is_nearest(a: SceneArtifact, w: Walk)
    requires
        walk_ok(a, w),
        ended(w),
        w.sound,
        all_seen(w),
    ensures
        nearest(a, w.field),
{
    assert forall|p: int| 0 <= p < a.nodes@.len() implies #[trigger] passes_on(a, w.field, p) by {
        assert(w.seen[p]);
        assert(edges_kept(a, w, p));
        let ids = a.children_of(p)->0;
        assert forall|k: int| 0 <= k < ids.len() implies (#[trigger] ids[k]).0 < a.nodes@.len()
            && w.field[ids[k].0 as int] == entered(
            a,
            ids[k].0 as usize,
            handed_down(a, p as usize, w.field[p]),
        ) by {
            assert(edge_kept(w, a, ids[k].0 as usize, handed_down(a, p as usize, w.field[p])));
        }
    }
}

spec fn as_walk(
    stack: Seq<(usize, Option<usize>)>,
    seen: Seq<bool>,
    field: Seq<Option<usize>>,
    sound: bool,
) -> Walk {
    Walk { stack, seen, field, sound }
}

fn push_pending(
    artifact: &SceneArtifact,
    stack: &mut Vec<(usize, Option<usize>)>,
    ids: &Vec<NodeId>,
    field: Option<usize>,
) -> (r: bool)
    ensures
        final(stack)@ == old(stack)@ + pending(*artifact, ids@, field, ids@.len()),
        r == all_nodes(*artifact, ids@),
{
    let mut good: bool = true;
    let mut n: usize = ids.len();
    assert(stack@ + pending(*artifact, ids@, field, n as nat) =~= old(stack)@ + pending(
        *artifact,
        ids@,
        field,
        ids@.len(),
    ));
    while n > 0
        invariant
            n <= ids@.len(),
            stack@ + pending(*artifact, ids@, field, n as nat) == old(stack)@ + pending(
                *artifact,
                ids@,
                field,
                ids@.len(),
            ),
            good == (forall|k: int|
                n <= k < ids@.len() ==> (#[trigger] ids@[k]).0 < artifact.nodes@.len()),
        decreases n,
    {
        let id: usize = ids[n - 1].0 as usize;
        let ghost before = stack@;
        if id < artifact.nodes.len() {
            stack.push((id, field));
            proof {
                let more = pending(*artifact, ids@, field, (n - 1) as nat);
                assert(before + (seq![(id, field)] + more) =~= stack@ + more);
            }
        } else {
            assert(!(ids@[n - 1].0 < artifact.nodes@.len()));
            good = false;
        }
        n = n - 1;
    }
    assert(stack@ + pending(*artifact, ids@, field, 0) =~= stack@);
    good
}

/// Walks structural wrappers to find the nearest enclosing field of each node.
pub fn checked_field_membership(artifact: &SceneArtifact) -> (r: Membership)
    ensures
        r.field@.len() == artifact.nodes@.len(),
        found(*artifact, r),
        r.is_tree ==> nearest(*artifact, r.field@),
        forall|i: int|
            0 <= i < r.field@.len() ==> (#[trigger] r.field@[i] matches Some(f) ==> is_field(
                *artifact,
                f as int,
            )),
{
    let total: usize = artifact.nodes.len();
    let mut seen: Vec<bool> = Vec::new();
    let mut field: Vec<Option<usize>> = Vec::new();
    while seen.len() < total
        invariant
            total == artifact.nodes@.len(),
            seen@.len() == field@.len(),
            seen@.len() <= total,
            forall|i: int| 0 <= i < seen@.len() ==> !(#[trigger] seen@[i]),
            forall|i: int| 0 <= i < field@.len() ==> (#[trigger] field@[i]) is None,
        decreases total - seen@.len(),
    {
        seen.push(false);
        field.push(None);
    }
    let root: usize = artifact.root.0 as usize;
    let mut sound: bool = root < total;
    let mut stack: Vec<(usize, Option<usize>)> = Vec::new();
    if root < total {
        stack.push((root, None));
    }
    let ghost mut n: nat = 0;
    proof {
        start_ok(*artifact);
        let w = as_walk(stack@, seen@, field@, sound);
        assert(w.stack =~= start(*artifact).stack);
        assert(w.seen =~= start(*artifact).seen);
        assert(w.field =~= start(*artifact).field);
    }
    while stack.len() > 0
        invariant
            total == artifact.nodes@.len(),
            as_walk(stack@, seen@, field@, sound) == walked(*artifact, n),
            walk_ok(*artifact, walked(*artifact, n)),
            forall|i: int|
                0 <= i < field@.len() ==> (#[trigger] field@[i] matches Some(f) ==> is_field(
                    *artifact,
                    f as int,
                )),
            forall|i: int|
                0 <= i < stack@.len() ==> ((#[trigger] stack@[i]).1 matches Some(f) ==> is_field(
                    *artifact,
                    f as int,
                )),
        decreases count_unseen(seen@, total as nat), stack@.len(),
    {
        let ghost w = walked(*artifact, n);
        let ghost old_stack = stack@;
        let top = stack.pop();
        let (at, around) = match top {
            Some(t) => t,
            None => (0, None),
        };
        proof {
            step_ok(*artifact, w);
            assert(old_stack[old_stack.len() - 1] == w.stack.last());
            assert(stack@ =~= w.stack.drop_last());
        }
        if seen[at] {
            sound = false;
            proof {
                n = n + 1;
            }
            continue;
        }
        proof {
            seeing_counts(seen@, at as int, total as nat);
        }
        seen.set(at, true);
        let here: Option<usize> = match &artifact.nodes[at].kind {
            NodeKind::GlassField(_) => Some(at),
            _ => around,
        };
        field.set(at, here);
        let down: Option<usize> = match &artifact.nodes[at].kind {
            NodeKind::Glass(_) => None,
            _ => here,
        };
        match artifact.child_ids(at) {
            None => {
                sound = false;
            },
            Some(ids) => {
                let ghost rest = stack@;
                let good: bool = push_pending(artifact, &mut stack, &ids, down);
                sound = sound && good;
                proof {
                    pending_fields(*artifact, ids@, down, ids@.len());
                    assert forall|i: int| 0 <= i < stack@.len() implies ((#[trigger] stack@[i]).1 matches Some(f)
                        ==> is_field(*artifact, f as int)) by {
                        if i < rest.len() {
                            assert(stack@[i] == old_stack[i]);
                        } else {
                            assert(stack@[i] == pending(*artifact, ids@, down, ids@.len())[i
                                - rest.len()]);
                        }
                    }
                }
            },
        }
        proof {
            n = n + 1;
            assert(as_walk(stack@, seen@, field@, sound) == step(*artifact, w));
        }
    }
    proof {
        assert(ended(walked(*artifact, n)));
    }
    let mut every: bool = true;
    let mut i: usize = 0;
    while i < total
        invariant
            i <= total,
            total == seen@.len(),
            every == (forall|k: int| 0 <= k < i ==> #[trigger] seen@[k]),
        decreases total - i,
    {
        if !seen[i] {
            assert(!seen@[i as int]);
            every = false;
        }
        i = i + 1;
    }
    let is_tree: bool = sound && every;
    proof {
        if is_tree {
            end_is_nearest(*artifact, walked(*artifact, n));
        }
    }
    Membership { field, is_tree }
}

proof fn pending_fields(a: SceneArtifact, ids: Seq<NodeId>, field: Option<usize>, n: nat)
    requires
        n <= ids.len(),
    ensures
        forall|i: int|
            0 <= i < pending(a, ids, field, n).len() ==> (#[trigger] pending(a, ids, field, n)[i]).1
                == field,
    decreases n,
{
    if n > 0 {
        pending_fields(a, ids, field, (n - 1) as nat);
        let more = pending(a, ids, field, (n - 1) as nat);
        if ids[n - 1].0 < a.nodes@.len() {
            let here = seq![(ids[n - 1].0 as usize, field)];
            assert forall|i: int| 0 <= i < (here + more).len() implies (#[trigger] (here
                + more)[i]).1 == field by {
                if i > 0 {
                    assert((here + more)[i] == more[i - 1]);
                }
            }
        }
    }
}

proof fn walks_are_ok(a: SceneArtifact, n: nat)
    ensures
        walk_ok(a, walked(a, n)),
    decreases n,
{
    if n == 0 {
        start_ok(a);
    } else {
        walks_are_ok(a, (n - 1) as nat);
        if walked(a, (n - 1) as nat).stack.len() > 0 {
            step_ok(a, walked(a, (n - 1) as nat));
        }
    }
}

/// Where the scene is one tree, every node belongs to the field of its nearest enclosing scope.
pub proof fn tree_membership_is_nearest(a: SceneArtifact, m: Membership)
    requires
        found(a, m),
        m.is_tree,
    ensures
        nearest(a, m.field@),
{
    let n = choose|n: nat| #[trigger]
        ended(walked(a, n)) && m.field@ == walked(a, n).field && m.is_tree == (walked(a, n).sound
            && all_seen(walked(a, n)));
    walks_are_ok(a, n);
    end_is_nearest(a, walked(a, n));
}

/// The identifier of the field at a node.
pub open spec fn field_name(a: SceneArtifact, field: Option<usize>) -> Option<Seq<char>> {
    match field {
        Some(f) => match a.nodes@[f as int].kind {
            NodeKind::GlassField(node) => Some(node.field_id@),
            _ => None,
        },
        None => None,
    }
}

/// Fields by their identifiers.
pub open spec fn field_names(v: Seq<Option<GlassFieldId>>) -> Seq<Option<Seq<char>>> {
    v.map_values(
        |o: Option<GlassFieldId>|
            match o {
                Some(id) => Some(id@),
                None => None,
            },
    )
}

/// The nearest enclosing field of each node. Descending into a surface crosses into its foreground,
/// which belongs to no field.
pub fn field_membership(artifact: &SceneArtifact) -> (r: Vec<Option<GlassFieldId>>)
    ensures
        exists|m: Membership| #[trigger]
            found(*artifact, m) && (m.is_tree ==> nearest(*artifact, m.field@)) && m.field@.len()
                == artifact.nodes@.len() && field_names(r@) == m.field@.map_values(
                |f: Option<usize>| field_name(*artifact, f),
            ),
{
    let m = checked_field_membership(artifact);
    let ghost want = m.field@.map_values(|f: Option<usize>| field_name(*artifact, f));
    let mut out: Vec<Option<GlassFieldId>> = Vec::new();
    let mut i: usize = 0;
    while i < m.field.len()
        invariant
            i <= m.field@.len(),
            m.field@.len() == artifact.nodes@.len(),
            want == m.field@.map_values(|f: Option<usize>| field_name(*artifact, f)),
            out@.len() == i,
            forall|k: int|
                0 <= k < m.field@.len() ==> (#[trigger] m.field@[k] matches Some(f) ==> is_field(
                    *artifact,
                    f as int,
                )),
            forall|k: int| 0 <= k < i ==> #[trigger] field_names(out@)[k] == want[k],
        decreases m.field@.len() - i,
    {
        let ghost before = out@;
        let name: Option<GlassFieldId> = match m.field[i] {
            Some(f) => match &artifact.nodes[f].kind {
                NodeKind::GlassField(node) => Some(node.field_id.duplicate()),
                _ => None,
            },
            None => None,
        };
        out.push(name);
        proof {
            assert(m.field@[i as int] == m.field@[i as int]);
            assert forall|k: int| 0 <= k < i + 1 implies #[trigger] field_names(out@)[k] == want[k] by {
                if k < i {
                    assert(field_names(before)[k] == want[k]);
                    assert(out@[k] == before[k]);
                }
            }
        }
        i = i + 1;
    }
    assert(field_names(out@) =~= want);
    out
}

} // verus!
