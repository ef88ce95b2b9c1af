//! Scenes that are one tree: every node is reached from the root, and named as a child once.

use vstd::prelude::*;

use crate::artifact::{NodeId, SceneArtifact};
use crate::membership::{
    all_nodes, all_seen, ended, entered, found, handed_down, pending, start, walked, Membership,
    Walk,
};

verus! {

/// Whether a node names another as its child.
pub open spec fn parents(a: SceneArtifact, p: int, child: int) -> bool {
    a.children_of(p) matches Some(ids) && exists|k: int|
        0 <= k < ids.len() && (#[trigger] ids[k]).0 == child
}

/// Whether node `k` of a path names the next.
pub open spec fn follows(a: SceneArtifact, path: Seq<int>, k: int) -> bool {
    parents(a, path[k], path[k + 1])
}

/// Whether a path leads from the root down to a node.
pub open spec fn leads_to(a: SceneArtifact, path: Seq<int>, at: int) -> bool {
    &&& path.len() > 0
    &&& path[0] == a.root.0
    &&& path.last() == at
    &&& forall|k: int| 0 <= k < path.len() - 1 ==> #[trigger] follows(a, path, k)
}

/// Whether a node is the root or below it.
pub open spec fn under_root(a: SceneArtifact, at: int) -> bool {
    exists|path: Seq<int>| #[trigger] leads_to(a, path, at)
}

/// How often the first `n` of a list name a node.
pub open spec fn named_in(ids: Seq<NodeId>, at: int, n: nat) -> nat
    decreases n,
{
    if n == 0 {
        0
    } else {
        named_in(ids, at, (n - 1) as nat) + (if ids[n - 1].0 == at { 1nat } else { 0nat })
    }
}

/// How often a node names another as its child.
pub open spec fn named_by(a: SceneArtifact, p: int, at: int) -> nat {
    match a.children_of(p) {
        Some(ids) => named_in(ids, at, ids.len()),
        None => 0,
    }
}

/// How often the first `n` nodes name a node as their child.
pub open spec fn times_named(a: SceneArtifact, at: int, n: nat) -> nat
    decreases n,
{
    if n == 0 { 0 } else { times_named(a, at, (n - 1) as nat) + named_by(a, n - 1, at) }
}

/// How often the seen ones among the first `n` nodes name a node as their child.
spec fn seen_naming(a: SceneArtifact, seen: Seq<bool>, at: int, n: nat) -> nat
    decreases n,
{
    if n == 0 {
        0
    } else {
        seen_naming(a, seen, at, (n - 1) as nat) + (if seen[n - 1] {
            named_by(a, n - 1, at)
        } else {
            0
        })
    }
}

proof fn seeing_adds(a: SceneArtifact, seen: Seq<bool>, new: int, at: int, n: nat)
    requires
        0 <= new < seen.len(),
        !seen[new],
        n <= seen.len(),
    ensures
        seen_naming(a, seen.update(new, true), at, n) == seen_naming(a, seen, at, n) + (if new < n {
            named_by(a, new, at)
        } else {
            0
        }),
    decreases n,
{
    if n > 0 {
        seeing_adds(a, seen, new, at, (n - 1) as nat);
    }
}

proof fn none_seen(a: SceneArtifact, seen: Seq<bool>, at: int, n: nat)
    requires
        n <= seen.len(),
        forall|i: int| 0 <= i < n ==> !#[trigger] seen[i],
    ensures
        seen_naming(a, seen, at, n) == 0,
    decreases n,
{
    if n > 0 {
        none_seen(a, seen, at, (n - 1) as nat);
    }
}

proof fn everything_seen(a: SceneArtifact, seen: Seq<bool>, at: int, n: nat)
    requires
        n <= seen.len(),
        forall|i: int| 0 <= i < n ==> #[trigger] seen[i],
    ensures
        seen_naming(a, seen, at, n) == times_named(a, at, n),
    decreases n,
{
    if n > 0 {
        everything_seen(a, seen, at, (n - 1) as nat);
    }
}

/// How often a node is pending.
spec fn waiting(stack: Seq<(usize, Option<usize>)>, at: int) -> nat
    decreases stack.len(),
{
    if stack.len() == 0 {
        0
    } else {
        waiting(stack.drop_last(), at) + (if stack.last().0 == at { 1nat } else { 0nat })
    }
}

proof fn waiting_adds(
    left: Seq<(usize, Option<usize>)>,
    right: Seq<(usize, Option<usize>)>,
    at: int,
)
    ensures
        waiting(left + right, at) == waiting(left, at) + waiting(right, at),
    decreases right.len(),
{
    if right.len() == 0 {
        assert(left + right =~= left);
    } else {
        waiting_adds(left, right.drop_last(), at);
        assert((left + right).drop_last() =~= left + right.drop_last());
    }
}

proof fn children_wait(a: SceneArtifact, ids: Seq<NodeId>, field: Option<usize>, n: nat, at: int)
    requires
        n <= ids.len(),
        all_nodes(a, ids),
    ensures
        waiting(pending(a, ids, field, n), at) == named_in(ids, at, n),
    decreases n,
{
    if n > 0 {
        children_wait(a, ids, field, (n - 1) as nat, at);
        assert(ids[n - 1].0 < a.nodes@.len());
        let here = seq![(ids[n - 1].0 as usize, field)];
        waiting_adds(here, pending(a, ids, field, (n - 1) as nat), at);
        assert(here.drop_last() =~= Seq::empty());
        assert(waiting(here.drop_last(), at) == 0);
    }
}

/// What a sound walk keeps: a node is seen or pending as often as it was named, the root once more.
spec fn counted(a: SceneArtifact, w: Walk, at: int) -> bool {
    waiting(w.stack, at) + (if w.seen[at] { 1nat } else { 0nat }) == (if at == a.root.0 {
        1nat
    } else {
        0nat
    }) + seen_naming(a, w.seen, at, a.nodes@.len())
}

proof fn walks_count(a: SceneArtifact, n: nat, at: int)
    requires
        0 <= at < a.nodes@.len(),
        walked(a, n).sound,
    ensures
        walked(a, n).seen.len() == a.nodes@.len(),
        forall|i: int|
            0 <= i < walked(a, n).stack.len() ==> (#[trigger] walked(a, n).stack[i]).0
                < a.nodes@.len(),
        counted(a, walked(a, n), at),
    decreases n,
{
    if n == 0 {
        let w = start(a);
        none_seen(a, w.seen, at, a.nodes@.len());
        assert(w.stack.drop_last() =~= Seq::empty());
        assert(waiting(w.stack.drop_last(), at) == 0);
    } else {
        let w = walked(a, (n - 1) as nat);
        let next = walked(a, n);
        assert(w.sound);
        walks_count(a, (n - 1) as nat, at);
        if w.stack.len() > 0 {
            let (here, around) = w.stack.last();
            assert(w.stack[w.stack.len() - 1].0 < a.nodes@.len());
            let ids = a.children_of(here as int)->0;
            let field = entered(a, here, around);
            let down = handed_down(a, here, field);
            let more = pending(a, ids, down, ids.len());
            let rest = w.stack.drop_last();
            assert(next.stack == rest + more);
            children_wait(a, ids, down, ids.len(), at);
            waiting_adds(rest, more, at);
            seeing_adds(a, w.seen, here as int, at, a.nodes@.len());
            pending_are_nodes(a, ids, down, ids.len());
            assert forall|i: int| 0 <= i < next.stack.len() implies (#[trigger] next.stack[i]).0
                < a.nodes@.len() by {
                if i < rest.len() {
                    assert(next.stack[i] == w.stack[i]);
                } else {
                    assert(next.stack[i] == more[i - rest.len()]);
                }
            }
        }
    }
}

proof fn pending_are_nodes(a: SceneArtifact, ids: Seq<NodeId>, field: Option<usize>, n: nat)
    requires
        n <= ids.len(),
    ensures
        forall|i: int|
            0 <= i < pending(a, ids, field, n).len() ==> {
                let at = (#[trigger] pending(a, ids, field, n)[i]).0;
                at < a.nodes@.len() && exists|k: int|
                    0 <= k < ids.len() && (#[trigger] ids[k]).0 == at
            },
    decreases n,
{
    if n > 0 {
        pending_are_nodes(a, ids, field, (n - 1) as nat);
        let more = pending(a, ids, field, (n - 1) as nat);
        if ids[n - 1].0 < a.nodes@.len() {
            let here = seq![(ids[n - 1].0 as usize, field)];
            let all = here + more;
            assert forall|i: int| 0 <= i < all.len() implies {
                let at = (#[trigger] all[i]).0;
                at < a.nodes@.len() && exists|k: int|
                    0 <= k < ids.len() && (#[trigger] ids[k]).0 == at
            } by {
                if i > 0 {
                    assert(all[i] == more[i - 1]);
                } else {
                    assert(ids[n - 1].0 == all[i].0);
                }
            }
        }
    }
}

proof fn children_are_under_root(a: SceneArtifact, p: int, child: int)
    requires
        under_root(a, p),
        parents(a, p, child),
    ensures
        under_root(a, child),
{
    let path = choose|path: Seq<int>| #[trigger] leads_to(a, path, p);
    let longer = path.push(child);
    assert forall|k: int| 0 <= k < longer.len() - 1 implies #[trigger] follows(a, longer, k) by {
        if k < path.len() - 1 {
            assert(follows(a, path, k));
        }
    }
    assert(leads_to(a, longer, child));
}

proof fn walks_descend(a: SceneArtifact, n: nat)
    ensures
        walked(a, n).seen.len() == a.nodes@.len(),
        forall|i: int|
            0 <= i < walked(a, n).stack.len() ==> (#[trigger] walked(a, n).stack[i]).0
                < a.nodes@.len() && under_root(a, walked(a, n).stack[i].0 as int),
        forall|i: int|
            0 <= i < walked(a, n).seen.len() && #[trigger] walked(a, n).seen[i] ==> under_root(a, i),
    decreases n,
{
    if n == 0 {
        if a.root.0 < a.nodes@.len() {
            assert(leads_to(a, seq![a.root.0 as int], a.root.0 as int));
        }
    } else {
        let w = walked(a, (n - 1) as nat);
        let next = walked(a, n);
        walks_descend(a, (n - 1) as nat);
        if w.stack.len() > 0 {
            let (here, around) = w.stack.last();
            let rest = w.stack.drop_last();
            assert(w.stack[w.stack.len() - 1].0 < a.nodes@.len());
            assert(under_root(a, here as int));
            assert forall|i: int| 0 <= i < rest.len() implies (#[trigger] rest[i]).0
                < a.nodes@.len() && under_root(a, rest[i].0 as int) by {
                assert(rest[i] == w.stack[i]);
            }
            if !w.seen[here as int] {
                assert forall|i: int|
                    0 <= i < next.seen.len() && #[trigger] next.seen[i] implies under_root(a, i) by {
                    if i != here {
                        assert(w.seen[i]);
                    }
                }
                match a.children_of(here as int) {
                    None => {},
                    Some(ids) => {
                        let down = handed_down(a, here, entered(a, here, around));
                        let more = pending(a, ids, down, ids.len());
                        pending_are_nodes(a, ids, down, ids.len());
                        assert forall|i: int| 0 <= i < next.stack.len() implies (
                        #[trigger] next.stack[i]).0 < a.nodes@.len() && under_root(
                            a,
                            next.stack[i].0 as int,
                        ) by {
                            if i < rest.len() {
                                assert(next.stack[i] == rest[i]);
                            } else {
                                assert(next.stack[i] == more[i - rest.len()]);
                                children_are_under_root(
                                    a,
                                    here as int,
                                    next.stack[i].0 as int,
                                );
                            }
                        }
                    },
                }
            }
        }
    }
}

/// Whether a node is reached from the root exactly once: it is the root, which is nobody's child, or
/// it is below the root and named as a child exactly once.
pub open spec fn reached_once(a: SceneArtifact, at: int) -> bool {
    under_root(a, at) && times_named(a, at, a.nodes@.len()) == (if at == a.root.0 {
        0nat
    } else {
        1nat
    })
}

/// Where a scene is one tree, every node is reached from the root exactly once.
pub proof fn trees_reach_every_node_once(a: SceneArtifact, m: Membership, at: int)
    requires
        found(a, m),
        m.is_tree,
        0 <= at < a.nodes@.len(),
    ensures
        reached_once(a, at),
{
    let n = choose|n: nat| #[trigger]
        ended(walked(a, n)) && m.field@ == walked(a, n).field && m.is_tree == (walked(a, n).sound
            && all_seen(walked(a, n)));
    let w = walked(a, n);
    walks_count(a, n, at);
    walks_descend(a, n);
    assert(w.seen[at]);
    assert(waiting(w.stack, at) == 0);
    everything_seen(a, w.seen, at, a.nodes@.len());
}

} // verus!
