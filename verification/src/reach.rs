//! Reachability in a graph of numbered nodes. Cycles are allowed.

use vstd::prelude::*;

verus! {

/// Whether an edge leads from `a` to `b`.
pub open spec fn linked(edges: Seq<Vec<usize>>, a: int, b: int) -> bool {
    0 <= a < edges.len() && 0 <= b < edges.len() && exists|k: int|
        0 <= k < edges[a]@.len() && #[trigger] edges[a]@[k] == b
}

/// Whether the roots name a node.
pub open spec fn is_root(edges: Seq<Vec<usize>>, roots: Seq<usize>, i: int) -> bool {
    0 <= i < edges.len() && exists|k: int| 0 <= k < roots.len() && #[trigger] roots[k] == i
}

/// Whether an edge leads from node `k` of a path to the next.
pub open spec fn hop(edges: Seq<Vec<usize>>, path: Seq<int>, k: int) -> bool {
    linked(edges, path[k], path[k + 1])
}

/// Whether a path starts at a root and follows edges.
pub open spec fn is_walk(edges: Seq<Vec<usize>>, roots: Seq<usize>, path: Seq<int>) -> bool {
    &&& path.len() > 0
    &&& is_root(edges, roots, path[0])
    &&& forall|k: int| 0 <= k < path.len() - 1 ==> #[trigger] hop(edges, path, k)
}

/// Whether a node can be reached from the roots.
pub open spec fn reaches(edges: Seq<Vec<usize>>, roots: Seq<usize>, i: int) -> bool {
    exists|path: Seq<int>| #[trigger] is_walk(edges, roots, path) && path.last() == i
}

/// Whether a marking holds the roots and follows every edge.
pub open spec fn is_closed(edges: Seq<Vec<usize>>, roots: Seq<usize>, marks: Seq<bool>) -> bool {
    &&& marks.len() == edges.len()
    &&& forall|k: int|
        0 <= k < roots.len() && roots[k] < edges.len() ==> marks[#[trigger] roots[k] as int]
    &&& forall|a: int, b: int| marks[a] && #[trigger] linked(edges, a, b) ==> marks[b]
}

proof fn closed_marks_hold(
    edges: Seq<Vec<usize>>,
    roots: Seq<usize>,
    marks: Seq<bool>,
    path: Seq<int>,
)
    requires
        is_closed(edges, roots, marks),
        is_walk(edges, roots, path),
    ensures
        0 <= path.last() < edges.len(),
        marks[path.last()],
    decreases path.len(),
{
    if path.len() > 1 {
        let shorter = path.drop_last();
        assert forall|k: int| 0 <= k < shorter.len() - 1 implies #[trigger] hop(edges, shorter, k) by {
            assert(hop(edges, path, k));
        }
        closed_marks_hold(edges, roots, marks, shorter);
        assert(hop(edges, path, path.len() - 2));
        assert(linked(edges, shorter.last(), path.last()));
    } else {
        let k = choose|k: int| 0 <= k < roots.len() && #[trigger] roots[k] == path[0];
        assert(marks[roots[k] as int]);
    }
}

/// The least set that holds the roots and follows every edge is what the roots reach.
pub proof fn reach_is_least(edges: Seq<Vec<usize>>, roots: Seq<usize>, marks: Seq<bool>)
    requires
        is_closed(edges, roots, marks),
    ensures
        forall|i: int| #[trigger] reaches(edges, roots, i) ==> 0 <= i < edges.len() && marks[i],
{
    assert forall|i: int| #[trigger] reaches(edges, roots, i) implies 0 <= i < edges.len()
        && marks[i] by {
        let path = choose|path: Seq<int>| #[trigger]
            is_walk(edges, roots, path) && path.last() == i;
        closed_marks_hold(edges, roots, marks, path);
    }
}

/// What is reached follows every edge.
pub proof fn reach_step(edges: Seq<Vec<usize>>, roots: Seq<usize>, a: int, b: int)
    requires
        reaches(edges, roots, a),
        linked(edges, a, b),
    ensures
        reaches(edges, roots, b),
{
    let path = choose|path: Seq<int>| #[trigger] is_walk(edges, roots, path) && path.last() == a;
    let longer = path.push(b);
    assert forall|k: int| 0 <= k < longer.len() - 1 implies #[trigger] hop(edges, longer, k) by {
        if k < path.len() - 1 {
            assert(hop(edges, path, k));
        }
    }
    assert(is_walk(edges, roots, longer) && longer.last() == b);
}

/// The roots are reached.
pub proof fn reach_root(edges: Seq<Vec<usize>>, roots: Seq<usize>, i: int)
    requires
        is_root(edges, roots, i),
    ensures
        reaches(edges, roots, i),
{
    assert(is_walk(edges, roots, seq![i]) && seq![i].last() == i);
}

spec fn unmarked(marks: Seq<bool>, n: nat) -> nat
    decreases n,
{
    if n == 0 {
        0
    } else {
        unmarked(marks, (n - 1) as nat) + if marks[n - 1] { 0nat } else { 1nat }
    }
}

proof fn marking_counts(a: Seq<bool>, at: int, n: nat)
    requires
        0 <= at < a.len(),
        n <= a.len(),
        !a[at],
    ensures
        unmarked(a.update(at, true), n) == unmarked(a, n) - if at < n { 1int } else { 0int },
    decreases n,
{
    if n > 0 {
        marking_counts(a, at, (n - 1) as nat);
    }
}

/// Marks every node that the roots reach.
pub fn reachable(edges: &Vec<Vec<usize>>, roots: &Vec<usize>) -> (r: Vec<bool>)
    ensures
        r@.len() == edges@.len(),
        forall|i: int| 0 <= i < r@.len() ==> #[trigger] r@[i] == reaches(edges@, roots@, i),
{
    let n: usize = edges.len();
    let mut marks: Vec<bool> = Vec::new();
    let mut i: usize = 0;
    while i < n
        invariant
            i <= n,
            marks@.len() == i,
            forall|k: int| 0 <= k < i ==> !#[trigger] marks@[k],
        decreases n - i,
    {
        marks.push(false);
        i = i + 1;
    }
    let mut k: usize = 0;
    while k < roots.len()
        invariant
            n == edges@.len(),
            k <= roots@.len(),
            marks@.len() == n,
            forall|x: int| 0 <= x < n && #[trigger] marks@[x] ==> reaches(edges@, roots@, x),
            forall|j: int| 0 <= j < k && roots@[j] < n ==> marks@[#[trigger] roots@[j] as int],
        decreases roots@.len() - k,
    {
        let root: usize = roots[k];
        if root < n {
            proof {
                assert(roots@[k as int] == root);
                reach_root(edges@, roots@, root as int);
            }
            marks.set(root, true);
        }
        k = k + 1;
    }
    let mut changed: bool = true;
    while changed
        invariant
            n == edges@.len(),
            marks@.len() == n,
            forall|x: int| 0 <= x < n && #[trigger] marks@[x] ==> reaches(edges@, roots@, x),
            forall|j: int| 0 <= j < roots@.len() && roots@[j] < n ==> marks@[#[trigger] roots@[j] as int],
            !changed ==> forall|a: int, b: int|
                marks@[a] && #[trigger] linked(edges@, a, b) ==> marks@[b],
        decreases unmarked(marks@, n as nat), if changed { 1nat } else { 0nat },
    {
        changed = false;
        let ghost start = unmarked(marks@, n as nat);
        let mut a: usize = n;
        while a > 0
            invariant
                n == edges@.len(),
                marks@.len() == n,
                a <= n,
                forall|x: int| 0 <= x < n && #[trigger] marks@[x] ==> reaches(edges@, roots@, x),
                forall|j: int|
                    0 <= j < roots@.len() && roots@[j] < n ==> marks@[#[trigger] roots@[j] as int],
                unmarked(marks@, n as nat) <= start,
                changed ==> unmarked(marks@, n as nat) < start,
                !changed ==> forall|x: int, b: int|
                    a <= x && marks@[x] && #[trigger] linked(edges@, x, b) ==> marks@[b],
            decreases a,
        {
            a = a - 1;
            if marks[a] {
                let mut e: usize = 0;
                while e < edges[a].len()
                    invariant
                        n == edges@.len(),
                        marks@.len() == n,
                        a < n,
                        marks@[a as int],
                        e <= edges@[a as int]@.len(),
                        forall|x: int|
                            0 <= x < n && #[trigger] marks@[x] ==> reaches(edges@, roots@, x),
                        forall|j: int|
                            0 <= j < roots@.len() && roots@[j] < n
                                ==> marks@[#[trigger] roots@[j] as int],
                        unmarked(marks@, n as nat) <= start,
                        changed ==> unmarked(marks@, n as nat) < start,
                        !changed ==> forall|x: int, b: int|
                            a < x && marks@[x] && #[trigger] linked(edges@, x, b) ==> marks@[b],
                        !changed ==> forall|j: int|
                            0 <= j < e && edges@[a as int]@[j] < n
                                ==> marks@[#[trigger] edges@[a as int]@[j] as int],
                    decreases edges@[a as int]@.len() - e,
                {
                    let b: usize = edges[a][e];
                    if b < n && !marks[b] {
                        proof {
                            assert(linked(edges@, a as int, b as int)) by {
                                assert(edges@[a as int]@[e as int] == b);
                            }
                            reach_step(edges@, roots@, a as int, b as int);
                            marking_counts(marks@, b as int, n as nat);
                        }
                        marks.set(b, true);
                        changed = true;
                    }
                    e = e + 1;
                }
                proof {
                    if !changed {
                        assert forall|x: int, b: int|
                            a <= x && marks@[x] && #[trigger] linked(edges@, x, b) implies marks@[b] by {
                            if x == a {
                                let j = choose|j: int|
                                    0 <= j < edges@[x]@.len() && #[trigger] edges@[x]@[j] == b;
                                assert(marks@[edges@[a as int]@[j] as int]);
                            }
                        }
                    }
                }
            }
        }
    }
    proof {
        assert(is_closed(edges@, roots@, marks@));
        reach_is_least(edges@, roots@, marks@);
    }
    marks
}

} // verus!
