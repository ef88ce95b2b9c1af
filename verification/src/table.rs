//! Small keyed tables: entries in a fixed order, looked up by their first match.

use vstd::prelude::*;

use crate::order::{before, comes_before, texts_are_ordered};

verus! {

/// One named value.
#[derive(Debug)]
pub struct Entry<V> {
    pub key: String,
    pub value: V,
}

/// Position of the first entry among the first `n` with a key, or `n`.
pub open spec fn first_at<V>(entries: Seq<Entry<V>>, key: Seq<char>, n: nat) -> nat
    decreases n,
{
    if n == 0 {
        0
    } else {
        let before = first_at(entries, key, (n - 1) as nat);
        if before < n - 1 {
            before
        } else if entries[n - 1].key@ == key {
            (n - 1) as nat
        } else {
            n
        }
    }
}

/// The value of the first entry with a key.
pub open spec fn find<V>(entries: Seq<Entry<V>>, key: Seq<char>) -> Option<V> {
    let at = first_at(entries, key, entries.len());
    if at < entries.len() { Some(entries[at as int].value) } else { None }
}

/// `first_at` is the least position that holds the key.
pub proof fn first_at_is_least<V>(entries: Seq<Entry<V>>, key: Seq<char>, n: nat)
    requires
        n <= entries.len(),
    ensures
        first_at(entries, key, n) <= n,
        first_at(entries, key, n) < n ==> entries[first_at(entries, key, n) as int].key@ == key,
        forall|k: int| 0 <= k < first_at(entries, key, n) ==> (#[trigger] entries[k]).key@ != key,
    decreases n,
{
    if n > 0 {
        first_at_is_least(entries, key, (n - 1) as nat);
    }
}

proof fn first_at_settles<V>(entries: Seq<Entry<V>>, key: Seq<char>, m: nat, n: nat)
    requires
        m < n <= entries.len(),
        entries[m as int].key@ == key,
        first_at(entries, key, m) == m,
    ensures
        first_at(entries, key, n) == m,
    decreases n - m,
{
    first_at_is_least(entries, key, (n - 1) as nat);
    if m + 1 < n {
        first_at_settles(entries, key, m, (n - 1) as nat);
    }
}

/// A table holds a key exactly when some entry has it.
pub proof fn find_is_membership<V>(entries: Seq<Entry<V>>, key: Seq<char>)
    ensures
        find(entries, key) is Some <==> exists|k: int|
            0 <= k < entries.len() && (#[trigger] entries[k]).key@ == key,
{
    first_at_is_least(entries, key, entries.len());
    let at = first_at(entries, key, entries.len());
    if at < entries.len() {
        assert(entries[at as int].key@ == key);
    }
}

/// Whether no key occurs twice.
pub open spec fn unique_keys<V>(entries: Seq<Entry<V>>) -> bool {
    forall|i: int, j: int|
        0 <= i < j < entries.len() ==> (#[trigger] entries[i]).key@ != (#[trigger] entries[j]).key@
}

/// Whether entries stand in ascending order of their keys, none twice.
pub open spec fn ascending<V>(entries: Seq<Entry<V>>) -> bool {
    forall|i: int, j: int|
        0 <= i < j < entries.len() ==> before(
            (#[trigger] entries[i]).key@,
            (#[trigger] entries[j]).key@,
        )
}

/// An ascending table repeats no key.
pub proof fn ascending_keys_are_unique<V>(entries: Seq<Entry<V>>)
    requires
        ascending(entries),
    ensures
        unique_keys(entries),
{
    assert forall|i: int, j: int| 0 <= i < j < entries.len() implies (#[trigger] entries[i]).key@ != (
    #[trigger] entries[j]).key@ by {
        texts_are_ordered(entries[i].key@, entries[j].key@, entries[i].key@);
    }
}

/// In a table without repeated keys every entry is found under its key.
pub proof fn unique_entries_are_found<V>(entries: Seq<Entry<V>>, k: int)
    requires
        unique_keys(entries),
        0 <= k < entries.len(),
    ensures
        find(entries, entries[k].key@) == Some(entries[k].value),
{
    first_at_is_least(entries, entries[k].key@, entries.len());
    let at = first_at(entries, entries[k].key@, entries.len());
    if at < k {
        assert(entries[at as int].key@ != entries[k].key@);
    } else if at > k {
        assert(entries[k].key@ != entries[k].key@);
    }
}

/// Whether two texts are equal.
pub fn same_text(a: &str, b: &str) -> (r: bool)
    ensures
        r == (a@ == b@),
{
    let left = a.to_owned();
    let right = b.to_owned();
    left == right
}

/// Position of the first entry with a key.
pub fn position<V>(entries: &Vec<Entry<V>>, key: &str) -> (r: Option<usize>)
    ensures
        r matches Some(i) ==> i < entries@.len() && i == first_at(entries@, key@, entries@.len())
            && entries@[i as int].key@ == key@ && find(entries@, key@) == Some(
            entries@[i as int].value,
        ),
        r is None ==> find(entries@, key@) is None,
{
    let mut i: usize = 0;
    while i < entries.len()
        invariant
            i <= entries@.len(),
            first_at(entries@, key@, i as nat) == i,
        decreases entries@.len() - i,
    {
        if same_text(entries[i].key.as_str(), key) {
            proof {
                first_at_settles(entries@, key@, i as nat, entries@.len());
            }
            return Some(i);
        }
        i = i + 1;
    }
    None
}

/// The value of the first entry with a key.
pub fn lookup<'a, V>(entries: &'a Vec<Entry<V>>, key: &str) -> (r: Option<&'a V>)
    ensures
        match r {
            Some(v) => find(entries@, key@) == Some(*v),
            None => find(entries@, key@) is None,
        },
{
    match position(entries, key) {
        Some(i) => Some(&entries[i].value),
        None => None,
    }
}

/// A table as a map: each key with the value of its first entry.
pub open spec fn mapped<V>(entries: Seq<Entry<V>>) -> Map<Seq<char>, V> {
    Map::new(|key: Seq<char>| find(entries, key) is Some, |key: Seq<char>| find(entries, key)->0)
}

/// Tables that are the same map find the same under every key.
pub proof fn same_maps_find_the_same<V>(a: Seq<Entry<V>>, b: Seq<Entry<V>>, key: Seq<char>)
    requires
        mapped(a) == mapped(b),
    ensures
        find(a, key) == find(b, key),
{
    assert(mapped(a).dom().contains(key) <==> find(a, key) is Some);
    assert(mapped(b).dom().contains(key) <==> find(b, key) is Some);
    if find(a, key) is Some {
        assert(mapped(a)[key] == find(a, key)->0);
        assert(mapped(b)[key] == find(b, key)->0);
    }
}

proof fn first_at_is_the_least<V>(entries: Seq<Entry<V>>, key: Seq<char>, at: nat)
    requires
        at < entries.len(),
        entries[at as int].key@ == key,
        forall|k: int| 0 <= k < at ==> (#[trigger] entries[k]).key@ != key,
    ensures
        find(entries, key) == Some(entries[at as int].value),
{
    first_at_is_least(entries, key, entries.len());
    let first = first_at(entries, key, entries.len());
    if first < at {
        assert(entries[first as int].key@ != key);
    } else if first > at {
        assert(entries[at as int].key@ != key);
    }
}

proof fn replaced_is_found<V>(a: Seq<Entry<V>>, b: Seq<Entry<V>>, at: nat, key: Seq<char>, value: V)
    requires
        at < a.len() == b.len(),
        at == first_at(a, key, a.len()),
        b[at as int].key@ == key,
        b[at as int].value == value,
        forall|k: int| 0 <= k < a.len() && k != at ==> #[trigger] b[k] == a[k],
    ensures
        mapped(b) =~= mapped(a).insert(key, value),
        ascending(a) ==> ascending(b),
{
    first_at_is_least(a, key, a.len());
    assert forall|k: int| 0 <= k < at implies (#[trigger] b[k]).key@ != key by {
        assert(b[k] == a[k]);
    }
    first_at_is_the_least(b, key, at);
    assert forall|k: int| 0 <= k < a.len() implies (#[trigger] b[k]).key@ == a[k].key@ by {
        if k != at {
            assert(b[k] == a[k]);
        }
    }
    assert forall|other: Seq<char>| other != key implies find(b, other) == #[trigger] find(
        a,
        other,
    ) by {
        first_at_is_least(a, other, a.len());
        first_at_is_least(b, other, b.len());
        let x = first_at(a, other, a.len());
        let y = first_at(b, other, b.len());
        if x < a.len() {
            assert(x != at);
            assert(b[x as int] == a[x as int]);
            assert forall|k: int| 0 <= k < x implies (#[trigger] b[k]).key@ != other by {
                assert(b[k].key@ == a[k].key@);
            }
            first_at_is_the_least(b, other, x);
        } else if y < b.len() {
            assert(y != at);
            assert(b[y as int] == a[y as int]);
        }
    }
}

/// Where entry `k` of a table stands once another is put in at `at`.
spec fn moved(k: int, at: int) -> int {
    if k < at {
        k
    } else {
        k + 1
    }
}

proof fn added_is_found<V>(a: Seq<Entry<V>>, at: int, e: Entry<V>)
    requires
        0 <= at <= a.len(),
        find(a, e.key@) is None,
    ensures
        mapped(a.insert(at, e)) =~= mapped(a).insert(e.key@, e.value),
{
    let b = a.insert(at, e);
    let key = e.key@;
    find_is_membership(a, key);
    assert(b[at].key@ == key);
    assert forall|k: int| 0 <= k < at implies (#[trigger] b[k]).key@ != key by {
        assert(b[k] == a[k]);
    }
    first_at_is_the_least(b, key, at as nat);
    assert forall|other: Seq<char>| other != key implies find(b, other) == #[trigger] find(
        a,
        other,
    ) by {
        first_at_is_least(a, other, a.len());
        first_at_is_least(b, other, b.len());
        let x = first_at(a, other, a.len()) as int;
        let y = first_at(b, other, b.len()) as int;
        if x < a.len() {
            let to = moved(x, at);
            assert(b[to] == a[x]);
            assert forall|k: int| 0 <= k < to implies (#[trigger] b[k]).key@ != other by {
                if k < at {
                    assert(b[k] == a[k]);
                } else if k > at {
                    assert(b[k] == a[k - 1]);
                }
            }
            first_at_is_the_least(b, other, to as nat);
        } else if y < b.len() {
            if y < at {
                assert(b[y] == a[y]);
            } else if y > at {
                assert(b[y] == a[y - 1]);
            }
        }
    }
}

proof fn added_keeps_order<V>(a: Seq<Entry<V>>, at: int, e: Entry<V>)
    requires
        0 <= at <= a.len(),
        ascending(a),
        find(a, e.key@) is None,
        forall|k: int| 0 <= k < at ==> !before(e.key@, (#[trigger] a[k]).key@),
        at < a.len() ==> before(e.key@, a[at].key@),
    ensures
        ascending(a.insert(at, e)),
{
    let b = a.insert(at, e);
    find_is_membership(a, e.key@);
    assert forall|i: int, j: int| 0 <= i < j < b.len() implies before(
        (#[trigger] b[i]).key@,
        (#[trigger] b[j]).key@,
    ) by {
        if i < at {
            assert(b[i] == a[i]);
        } else if i > at {
            assert(b[i] == a[i - 1]);
        }
        if j < at {
            assert(b[j] == a[j]);
        } else if j > at {
            assert(b[j] == a[j - 1]);
        }
        if j == at {
            texts_are_ordered(a[i].key@, e.key@, e.key@);
        }
        if i == at && j - 1 > at {
            texts_are_ordered(e.key@, a[at].key@, a[j - 1].key@);
        }
    }
}

/// Puts a value under a key, in place of the one before. An ascending table stays so.
pub fn store<V>(entries: &mut Vec<Entry<V>>, key: &str, value: V)
    ensures
        mapped(final(entries)@) == mapped(old(entries)@).insert(key@, value),
        ascending(old(entries)@) ==> ascending(final(entries)@),
{
    let ghost before_it = entries@;
    match position(entries, key) {
        Some(i) => {
            entries.set(i, Entry { key: key.to_owned(), value });
            proof {
                replaced_is_found(before_it, entries@, i as nat, key@, value);
            }
        },
        None => {
            let mut at: usize = 0;
            while at < entries.len() && !comes_before(key, entries[at].key.as_str())
                invariant
                    at <= entries@.len(),
                    entries@ == before_it,
                    forall|k: int| 0 <= k < at ==> !before(key@, (#[trigger] entries@[k]).key@),
                decreases entries@.len() - at,
            {
                at = at + 1;
            }
            let entry = Entry { key: key.to_owned(), value };
            proof {
                added_is_found(before_it, at as int, entry);
                if ascending(before_it) {
                    added_keeps_order(before_it, at as int, entry);
                }
            }
            entries.insert(at, entry);
        },
    }
}

} // verus!
