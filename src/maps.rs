//! What the map strategies compute, and how a map's entries are listed.
use vstd::prelude::*;

use crate::Merge;

verus! {

/// `entries` lists each entry of `m` exactly once, in some order.
pub open spec fn lists_entries<K, V>(entries: Seq<(K, V)>, m: Map<K, V>) -> bool {
    &&& forall|i: int, j: int|
        0 <= i < j < entries.len() ==> #[trigger] entries[i].0 != #[trigger] entries[j].0
    &&& forall|i: int|
        0 <= i < entries.len() ==> m.contains_key(#[trigger] entries[i].0) && m[entries[i].0]
            == entries[i].1
    &&& forall|k: K| #[trigger]
        m.contains_key(k) ==> exists|i: int| 0 <= i < entries.len() && entries[i].0 == k
}

/// The union of `left` and `right` in which a shared key's two values are
/// merged, `left`'s into first.
pub open spec fn merged_maps<K, V: Merge>(left: Map<K, V>, right: Map<K, V>) -> Map<K, V> {
    Map::new(
        |k: K| left.contains_key(k) || right.contains_key(k),
        |k: K|
            if left.contains_key(k) && right.contains_key(k) {
                left[k].merged(right[k])
            } else if left.contains_key(k) {
                left[k]
            } else {
                right[k]
            },
    )
}

/// Taking the last entry off a listing lists the map without that key.
pub proof fn lemma_pop_entry<K, V>(entries: Seq<(K, V)>, m: Map<K, V>)
    requires
        lists_entries(entries, m),
        entries.len() > 0,
    ensures
        m.contains_key(entries.last().0),
        m[entries.last().0] == entries.last().1,
        lists_entries(entries.drop_last(), m.remove(entries.last().0)),
{
    let n = entries.len() - 1;
    let k = entries[n].0;
    let rest = entries.drop_last();
    let m2 = m.remove(k);
    assert forall|i: int| 0 <= i < rest.len() implies m2.contains_key(#[trigger] rest[i].0)
        && m2[rest[i].0] == rest[i].1 by {
        assert(entries[i].0 != entries[n].0);
    }
    assert forall|x: K| #[trigger] m2.contains_key(x) implies exists|i: int|
        0 <= i < rest.len() && rest[i].0 == x by {
        let i = choose|i: int| 0 <= i < entries.len() && entries[i].0 == x;
        assert(i != n);
        assert(rest[i].0 == x);
    }
}

} // verus!
