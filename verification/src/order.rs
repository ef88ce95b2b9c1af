//! The order of texts, and lists sorted by it.

use vstd::prelude::*;

use crate::text::characters;

verus! {

/// Whether a text comes before another, from position `i` on: by the first character that differs,
/// a prefix first.
pub open spec fn before_from(a: Seq<char>, b: Seq<char>, i: int) -> bool
    decreases b.len() - i,
{
    if i < 0 || i >= b.len() {
        false
    } else if i >= a.len() {
        true
    } else if a[i] != b[i] {
        a[i] < b[i]
    } else {
        before_from(a, b, i + 1)
    }
}

/// Whether a text comes before another.
pub open spec fn before(a: Seq<char>, b: Seq<char>) -> bool {
    before_from(a, b, 0)
}

proof fn never_before_itself(a: Seq<char>, i: int)
    requires
        0 <= i,
    ensures
        !before_from(a, a, i),
    decreases a.len() - i,
{
    if i < a.len() {
        never_before_itself(a, i + 1);
    }
}

proof fn steps_agree(a: Seq<char>, b: Seq<char>, c: Seq<char>, i: int)
    requires
        0 <= i,
        before_from(a, b, i),
        before_from(b, c, i),
    ensures
        before_from(a, c, i),
    decreases b.len() - i,
{
    if i < a.len() && i < b.len() && i < c.len() && a[i] == b[i] && b[i] == c[i] {
        steps_agree(a, b, c, i + 1);
    }
}

proof fn one_is_before(a: Seq<char>, b: Seq<char>, i: int)
    requires
        0 <= i <= a.len(),
        i <= b.len(),
        forall|k: int| 0 <= k < i ==> a[k] == b[k],
    ensures
        before_from(a, b, i) || before_from(b, a, i) || a == b,
    decreases b.len() - i,
{
    if i < a.len() && i < b.len() && a[i] == b[i] {
        one_is_before(a, b, i + 1);
    } else if i >= a.len() && i >= b.len() {
        assert(a =~= b);
    }
}

/// The order of texts is a strict total order.
pub proof fn texts_are_ordered(a: Seq<char>, b: Seq<char>, c: Seq<char>)
    ensures
        !before(a, a),
        before(a, b) && before(b, c) ==> before(a, c),
        before(a, b) || before(b, a) || a == b,
        !(before(a, b) && before(b, a)),
{
    never_before_itself(a, 0);
    one_is_before(a, b, 0);
    if before(a, b) && before(b, c) {
        steps_agree(a, b, c, 0);
    }
    if before(a, b) && before(b, a) {
        steps_agree(a, b, a, 0);
    }
}

/// Whether a text comes before another.
pub fn comes_before(a: &str, b: &str) -> (r: bool)
    ensures
        r == before(a@, b@),
{
    let x = characters(a);
    let y = characters(b);
    let mut i: usize = 0;
    while i < y.len()
        invariant
            x@ == a@,
            y@ == b@,
            i <= y@.len(),
            before(a@, b@) == before_from(a@, b@, i as int),
        decreases y@.len() - i,
    {
        if i >= x.len() {
            return true;
        }
        if x[i] != y[i] {
            return x[i] < y[i];
        }
        i = i + 1;
    }
    false
}

/// Whether `order` lists the first `n` positions by their keys, equal keys by position.
pub open spec fn sorts(keys: Seq<Seq<char>>, order: Seq<usize>, n: nat) -> bool {
    &&& order.len() == n
    &&& forall|i: usize| i < n ==> #[trigger] order.contains(i)
    &&& forall|i: int| 0 <= i < n ==> (#[trigger] order[i]) < n
    &&& forall|i: int, j: int|
        0 <= i < j < n ==> sorted_pair(keys, #[trigger] order[i], #[trigger] order[j])
}

pub open spec fn sorted_pair(keys: Seq<Seq<char>>, a: usize, b: usize) -> bool {
    before(keys[a as int], keys[b as int]) || (keys[a as int] == keys[b as int] && a < b)
}

pub open spec fn keys_of(v: Seq<String>) -> Seq<Seq<char>> {
    v.map_values(|s: String| s@)
}

/// The positions of a list, sorted by their keys; equal keys keep their order.
pub fn sorted_positions(keys: &Vec<String>) -> (r: Vec<usize>)
    ensures
        sorts(keys_of(keys@), r@, keys@.len()),
{
    let ghost all = keys_of(keys@);
    let mut order: Vec<usize> = Vec::new();
    let mut n: usize = 0;
    while n < keys.len()
        invariant
            n <= keys@.len(),
            all == keys_of(keys@),
            sorts(all, order@, n as nat),
        decreases keys@.len() - n,
    {
        let mut p: usize = n;
        while p > 0 && comes_before(keys[n].as_str(), keys[order[p - 1]].as_str())
            invariant
                n < keys@.len(),
                all == keys_of(keys@),
                sorts(all, order@, n as nat),
                p <= n,
                forall|i: int| p <= i < n ==> before(all[n as int], all[#[trigger] order@[i] as int]),
            decreases p,
        {
            p = p - 1;
        }
        let ghost was = order@;
        order.insert(p, n);
        proof {
            assert(order@ =~= was.insert(p as int, n));
            let now = order@;
            assert forall|i: usize| i < n + 1 implies #[trigger] now.contains(i) by {
                if i == n {
                    assert(now[p as int] == n);
                } else {
                    assert(was.contains(i));
                    let k = choose|k: int| 0 <= k < was.len() && was[k] == i;
                    if k < p {
                        assert(now[k] == was[k]);
                    } else {
                        assert(now[k + 1] == was[k]);
                    }
                }
            }
            assert forall|i: int| 0 <= i < n + 1 implies (#[trigger] now[i]) < n + 1 by {
                if i < p {
                    assert(now[i] == was[i]);
                } else if i > p {
                    assert(now[i] == was[i - 1]);
                }
            }
            assert forall|i: int, j: int| 0 <= i < j < n + 1 implies sorted_pair(
                all,
                #[trigger] now[i],
                #[trigger] now[j],
            ) by {
                let wi = if i < p { i } else { i - 1 };
                let wj = if j < p { j } else { j - 1 };
                if i != p && j != p {
                    assert(now[i] == was[wi]);
                    assert(now[j] == was[wj]);
                    assert(sorted_pair(all, was[wi], was[wj]));
                } else if i == p {
                    assert(now[j] == was[wj]);
                    assert(before(all[n as int], all[was[wj] as int]));
                } else {
                    assert(now[i] == was[i]);
                    let last = was[p - 1];
                    texts_are_ordered(all[n as int], all[last as int], all[last as int]);
                    if i < p - 1 {
                        assert(sorted_pair(all, was[i], was[p - 1]));
                        texts_are_ordered(all[was[i] as int], all[last as int], all[n as int]);
                    }
                }
            }
        }
        n = n + 1;
    }
    order
}

} // verus!
