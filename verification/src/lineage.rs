//! Parents and ancestors in the node table, and what a surface shows in front of its material.

use vstd::prelude::*;

use crate::artifact::{NodeId, NodeKind, SceneArtifact};

verus! {

/// Whether a list of children names a node.
pub open spec fn names(ids: Seq<NodeId>, child: int) -> bool {
    exists|k: int| 0 <= k < ids.len() && (#[trigger] ids[k]).0 == child
}

/// Whether a node has a child.
pub open spec fn is_parent(a: SceneArtifact, at: int, child: int) -> bool {
    a.children_of(at) matches Some(ids) && names(ids, child)
}

/// The first node from `at` on that has a child.
pub open spec fn parent_from(a: SceneArtifact, child: int, at: int) -> Option<usize>
    decreases a.nodes@.len() - at,
{
    if at < 0 || at >= a.nodes@.len() {
        None
    } else if is_parent(a, at, child) {
        Some(at as usize)
    } else {
        parent_from(a, child, at + 1)
    }
}

/// The first node that has a child.
pub open spec fn parent_of(a: SceneArtifact, child: int) -> Option<usize> {
    parent_from(a, child, 0)
}

fn has_child(ids: &Vec<NodeId>, child: usize) -> (r: bool)
    ensures
        r == names(ids@, child as int),
{
    let mut k: usize = 0;
    while k < ids.len()
        invariant
            k <= ids@.len(),
            forall|j: int| 0 <= j < k ==> (#[trigger] ids@[j]).0 != child,
        decreases ids@.len() - k,
    {
        if ids[k].0 as usize == child {
            assert(ids@[k as int].0 == child);
            return true;
        }
        k = k + 1;
    }
    false
}

/// The first node that has a child.
pub fn parent_index(artifact: &SceneArtifact, child: usize) -> (r: Option<usize>)
    ensures
        r == parent_of(*artifact, child as int),
        r matches Some(p) ==> p < artifact.nodes@.len(),
{
    let mut at: usize = 0;
    while at < artifact.nodes.len()
        invariant
            at <= artifact.nodes@.len(),
            parent_of(*artifact, child as int) == parent_from(*artifact, child as int, at as int),
        decreases artifact.nodes@.len() - at,
    {
        match artifact.child_ids(at) {
            Some(ids) => {
                if has_child(&ids, child) {
                    return Some(at);
                }
            },
            None => {},
        }
        at = at + 1;
    }
    None
}

/// A node and its ancestors, nearest first, up to the first that repeats: at most `fuel` of them.
pub open spec fn ancestry(
    a: SceneArtifact,
    cursor: Option<usize>,
    seen: Seq<usize>,
    fuel: nat,
) -> Seq<usize>
    decreases fuel,
{
    if fuel == 0 {
        seen
    } else {
        match cursor {
            None => seen,
            Some(p) => if p >= a.nodes@.len() || seen.contains(p) {
                seen
            } else {
                ancestry(a, parent_of(a, p as int), seen.push(p), (fuel - 1) as nat)
            },
        }
    }
}

/// A node and its ancestors, nearest first; a cycle is followed once.
pub open spec fn lineage(a: SceneArtifact, cursor: Option<usize>) -> Seq<usize> {
    ancestry(a, cursor, Seq::empty(), a.nodes@.len())
}

fn is_listed(v: &Vec<usize>, x: usize) -> (r: bool)
    ensures
        r == v@.contains(x),
{
    let mut i: usize = 0;
    while i < v.len()
        invariant
            i <= v@.len(),
            forall|k: int| 0 <= k < i ==> v@[k] != x,
        decreases v@.len() - i,
    {
        if v[i] == x {
            return true;
        }
        i = i + 1;
    }
    false
}

/// A node and its ancestors, nearest first; a cycle is followed once.
pub fn ancestors(artifact: &SceneArtifact, cursor: Option<usize>) -> (r: Vec<usize>)
    ensures
        r@ == lineage(*artifact, cursor),
        forall|i: int| 0 <= i < r@.len() ==> (#[trigger] r@[i]) < artifact.nodes@.len(),
{
    let mut out: Vec<usize> = Vec::new();
    let mut next: Option<usize> = cursor;
    let mut fuel: usize = artifact.nodes.len();
    assert(out@ =~= Seq::empty());
    while fuel > 0
        invariant
            forall|i: int| 0 <= i < out@.len() ==> (#[trigger] out@[i]) < artifact.nodes@.len(),
            lineage(*artifact, cursor) == ancestry(*artifact, next, out@, fuel as nat),
        decreases fuel,
    {
        match next {
            None => {
                return out;
            },
            Some(p) => {
                if p >= artifact.nodes.len() || is_listed(&out, p) {
                    return out;
                }
                out.push(p);
                next = parent_index(artifact, p);
            },
        }
        fuel = fuel - 1;
    }
    out
}

/// Whether a node's color cannot be told from the scene alone.
pub open spec fn unknown_kind(kind: NodeKind) -> bool {
    kind is Image || kind is Video || kind is ShaderLayer || kind is Scene3D
}

fn is_unknown(kind: &NodeKind) -> (r: bool)
    ensures
        r == unknown_kind(*kind),
{
    match kind {
        NodeKind::Image { .. }
        | NodeKind::Video { .. }
        | NodeKind::ShaderLayer { .. }
        | NodeKind::Scene3D { .. } => true,
        _ => false,
    }
}

/// A search below a surface: nodes still to visit, and which were seen. `outcome` is set once the
/// search is decided.
pub struct Search {
    pub stack: Seq<usize>,
    pub seen: Seq<bool>,
    pub outcome: Option<bool>,
}

/// The children of a node, last first, as positions.
pub open spec fn reversed(ids: Seq<NodeId>) -> Seq<usize> {
    Seq::new(ids.len(), |i: int| ids[ids.len() - 1 - i].0 as usize)
}

/// One step of the search: the last pending node is visited. A missing or repeated node, a bad child
/// range, or content of unknown color decides it.
pub open spec fn search_step(a: SceneArtifact, s: Search) -> Search {
    if s.outcome is Some {
        s
    } else if s.stack.len() == 0 {
        Search { outcome: Some(false), ..s }
    } else {
        let at = s.stack.last();
        let rest = s.stack.drop_last();
        if at >= a.nodes@.len() || s.seen[at as int] || unknown_kind(a.nodes@[at as int].kind) {
            Search { stack: rest, outcome: Some(true), ..s }
        } else {
            let seen = s.seen.update(at as int, true);
            match a.children_of(at as int) {
                None => Search { stack: rest, seen, outcome: Some(true) },
                Some(ids) => Search { stack: rest + reversed(ids), seen, outcome: None },
            }
        }
    }
}

pub open spec fn search_start(a: SceneArtifact, glass: int) -> Search {
    let unseen = Seq::new(a.nodes@.len(), |i: int| i == glass);
    match a.children_of(glass) {
        None => Search { stack: Seq::empty(), seen: unseen, outcome: Some(true) },
        Some(ids) => Search { stack: reversed(ids), seen: unseen, outcome: None },
    }
}

pub open spec fn searched(a: SceneArtifact, glass: int, n: nat) -> Search
    decreases n,
{
    if n == 0 {
        search_start(a, glass)
    } else {
        search_step(a, searched(a, glass, (n - 1) as nat))
    }
}

/// Whether the search below a surface ends with `r`.
pub open spec fn search_ends(a: SceneArtifact, glass: int, r: bool) -> bool {
    exists|n: nat| (#[trigger] searched(a, glass, n)).outcome == Some(r)
}

/// Whether a set of nodes holds a surface and everything below it, none of it of unknown color.
pub open spec fn known_below(a: SceneArtifact, glass: int, set: Seq<bool>) -> bool {
    &&& set.len() == a.nodes@.len()
    &&& 0 <= glass < set.len() && set[glass]
    &&& forall|p: int| 0 <= p < set.len() && #[trigger] set[p] ==> known_at(a, glass, set, p)
}

pub open spec fn known_at(a: SceneArtifact, glass: int, set: Seq<bool>, p: int) -> bool {
    &&& p == glass || !unknown_kind(a.nodes@[p].kind)
    &&& a.children_of(p) matches Some(ids) && forall|k: int|
        0 <= k < ids.len() ==> (#[trigger] ids[k]).0 < set.len() && set[ids[k].0 as int]
}

spec fn waits(stack: Seq<usize>, x: usize) -> bool {
    exists|i: int| 0 <= i < stack.len() && #[trigger] stack[i] == x
}

spec fn kids_kept(a: SceneArtifact, s: Search, p: int) -> bool {
    match a.children_of(p) {
        None => false,
        Some(ids) => forall|k: int|
            0 <= k < ids.len() ==> waits(s.stack, (#[trigger] ids[k]).0 as usize) || (ids[k].0
                < s.seen.len() && s.seen[ids[k].0 as int]),
    }
}

spec fn search_ok(a: SceneArtifact, glass: int, s: Search) -> bool {
    &&& s.seen.len() == a.nodes@.len()
    &&& 0 <= glass < s.seen.len() && s.seen[glass]
    &&& forall|p: int|
        0 <= p < s.seen.len() && #[trigger] s.seen[p] ==> (p == glass || !unknown_kind(
            a.nodes@[p].kind,
        )) && kids_kept(a, s, p)
}

proof fn reversed_holds(ids: Seq<NodeId>, k: int)
    requires
        0 <= k < ids.len(),
    ensures
        waits(reversed(ids), ids[k].0 as usize),
{
    assert(reversed(ids)[ids.len() - 1 - k] == ids[k].0 as usize);
}

proof fn search_keeps(a: SceneArtifact, glass: int, s: Search)
    requires
        search_ok(a, glass, s),
        s.outcome is None,
        search_step(a, s).outcome is None,
    ensures
        search_ok(a, glass, search_step(a, s)),
{
    let at = s.stack.last();
    let rest = s.stack.drop_last();
    let next = search_step(a, s);
    let mine = a.children_of(at as int)->0;
    assert forall|p: int| 0 <= p < next.seen.len() && #[trigger] next.seen[p] implies (p == glass
        || !unknown_kind(a.nodes@[p].kind)) && kids_kept(a, next, p) by {
        if p == at {
            assert forall|k: int| 0 <= k < mine.len() implies waits(
                next.stack,
                (#[trigger] mine[k]).0 as usize,
            ) by {
                reversed_holds(mine, k);
                let x = mine[k].0 as usize;
                let i = choose|i: int| 0 <= i < reversed(mine).len() && #[trigger] reversed(mine)[i] == x;
                assert(next.stack[rest.len() + i] == x);
            }
        } else {
            assert(s.seen[p]);
            let ids = a.children_of(p)->0;
            assert forall|k: int| 0 <= k < ids.len() implies waits(
                next.stack,
                (#[trigger] ids[k]).0 as usize,
            ) || (ids[k].0 < next.seen.len() && next.seen[ids[k].0 as int]) by {
                let x = ids[k].0 as usize;
                if waits(s.stack, x) {
                    let i = choose|i: int| 0 <= i < s.stack.len() && #[trigger] s.stack[i] == x;
                    if i < rest.len() {
                        assert(next.stack[i] == x);
                    }
                }
            }
        }
    }
}

spec fn left(seen: Seq<bool>, n: nat) -> nat
    decreases n,
{
    if n == 0 {
        0
    } else {
        left(seen, (n - 1) as nat) + (if seen[n - 1] { 0nat } else { 1nat })
    }
}

proof fn left_shrinks(seen: Seq<bool>, at: int, n: nat)
    requires
        0 <= at < seen.len(),
        !seen[at],
        n <= seen.len(),
    ensures
        left(seen.update(at, true), n) == left(seen, n) - (if at < n {
            1int
        } else {
            0
        }),
        at < n ==> left(seen, n) > 0,
    decreases n,
{
    if n > 0 {
        left_shrinks(seen, at, (n - 1) as nat);
    }
}

fn push_reversed(stack: &mut Vec<usize>, ids: &Vec<NodeId>)
    ensures
        final(stack)@ == old(stack)@ + reversed(ids@),
{
    let mut n: usize = ids.len();
    let ghost all = reversed(ids@);
    assert(stack@ =~= old(stack)@ + all.take(0));
    while n > 0
        invariant
            n <= ids@.len(),
            all == reversed(ids@),
            stack@ == old(stack)@ + all.take(ids@.len() - n),
        decreases n,
    {
        let ghost before = stack@;
        stack.push(ids[n - 1].0 as usize);
        n = n - 1;
        assert(stack@ =~= old(stack)@ + all.take(ids@.len() - n));
    }
    assert(all.take(ids@.len() as int) =~= all);
}

/// Whether something below a surface shows colors that the scene alone does not tell, or whether that
/// cannot be ruled out because the links below it are no tree.
pub fn subtree_has_unknown_foreground(artifact: &SceneArtifact, glass_at: usize) -> (r: bool)
    ensures
        search_ends(*artifact, glass_at as int, r),
        !r ==> exists|set: Seq<bool>| known_below(*artifact, glass_at as int, set),
{
    let ghost g = glass_at as int;
    let ids = match artifact.child_ids(glass_at) {
        Some(ids) => ids,
        None => {
            assert(searched(*artifact, g, 0).outcome == Some(true));
            return true;
        },
    };
    let total: usize = artifact.nodes.len();
    let mut seen: Vec<bool> = Vec::new();
    while seen.len() < total
        invariant
            seen@.len() <= total,
            forall|i: int| 0 <= i < seen@.len() ==> #[trigger] seen@[i] == (i == glass_at),
        decreases total - seen@.len(),
    {
        let here: bool = seen.len() == glass_at;
        seen.push(here);
    }
    let mut stack: Vec<usize> = Vec::new();
    push_reversed(&mut stack, &ids);
    let ghost mut n: nat = 0;
    proof {
        let s = searched(*artifact, g, 0);
        assert(stack@ =~= s.stack);
        assert(seen@ =~= s.seen);
        assert(search_ok(*artifact, g, s)) by {
            assert forall|k: int| 0 <= k < ids@.len() implies waits(
                s.stack,
                (#[trigger] ids@[k]).0 as usize,
            ) by {
                reversed_holds(ids@, k);
            }
        }
    }
    while stack.len() > 0
        invariant
            total == artifact.nodes@.len(),
            g == glass_at as int,
            searched(*artifact, g, n) == (Search { stack: stack@, seen: seen@, outcome: None }),
            search_ok(*artifact, g, searched(*artifact, g, n)),
        decreases left(seen@, total as nat),
    {
        let ghost s = searched(*artifact, g, n);
        let at: usize = match stack.pop() {
            Some(at) => at,
            None => 0,
        };
        assert(stack@ =~= s.stack.drop_last());
        if at >= total || seen[at] || is_unknown(&artifact.nodes[at].kind) {
            assert(searched(*artifact, g, n + 1).outcome == Some(true));
            return true;
        }
        proof {
            left_shrinks(seen@, at as int, total as nat);
        }
        seen.set(at, true);
        match artifact.child_ids(at) {
            None => {
                assert(searched(*artifact, g, n + 1).outcome == Some(true));
                return true;
            },
            Some(ids) => {
                push_reversed(&mut stack, &ids);
            },
        }
        proof {
            search_keeps(*artifact, g, s);
            n = n + 1;
        }
    }
    proof {
        assert(searched(*artifact, g, n + 1).outcome == Some(false));
        assert(known_below(*artifact, g, seen@)) by {
            assert forall|p: int| 0 <= p < seen@.len() && #[trigger] seen@[p] implies known_at(
                *artifact,
                g,
                seen@,
                p,
            ) by {
                assert(kids_kept(*artifact, searched(*artifact, g, n), p));
            }
        }
    }
    false
}

} // verus!
