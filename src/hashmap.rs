//! Merge strategies for hash maps.
use vstd::prelude::*;

use std::collections::HashMap;
use std::hash::Hash;
use vstd::std_specs::hash::obeys_key_model;

use crate::maps::{lemma_pop_entry, lists_entries, merged_maps};
use crate::Merge;

verus! {

broadcast use vstd::std_specs::hash::group_hash_axioms;

/// Relies on `Vec::from_iter` over the map's owning iterator, which yields
/// every entry of the map once.
#[verifier::external_body]
fn into_entries<K: Eq + Hash, V>(m: HashMap<K, V>) -> (r: Vec<(K, V)>)
    ensures
        obeys_key_model::<K>() ==> lists_entries(r@, m@),
{
    Vec::from_iter(m)
}

/// Adds the entries of `right` to `left`; on a shared key, `right`'s value
/// replaces `left`'s.
pub fn append_or_overwrite<K: Eq + Hash, V>(left: &mut HashMap<K, V>, right: HashMap<K, V>)
    ensures
        obeys_key_model::<K>() ==> {
            &&& final(left)@ == old(left)@.union_prefer_right(right@)
            &&& final(left)@.dom() == old(left)@.dom() + right@.dom()
        },
{
    let ghost l0 = left@;
    let ghost r0 = right@;
    let mut entries = into_entries(right);
    let ghost mut rest = r0;
    while entries.len() > 0
        invariant
            obeys_key_model::<K>() ==> {
                &&& lists_entries(entries@, rest)
                &&& forall|k: K| #[trigger] rest.contains_key(k) ==> r0.contains_key(k) && rest[k] == r0[k]
                &&& forall|k: K| #[trigger] left@.contains_key(k) <==> l0.contains_key(k) || (r0.contains_key(k) && !rest.contains_key(k))
                &&& forall|k: K| #[trigger] left@.contains_key(k) ==> left@[k] == if r0.contains_key(k) && !rest.contains_key(k) { r0[k] } else { l0[k] }
            },
        decreases entries.len(),
    {
        proof {
            if obeys_key_model::<K>() {
                lemma_pop_entry(entries@, rest);
            }
        }
        let ghost k0 = entries@.last().0;
        let (k, v) = entries.pop().unwrap();
        proof {
            rest = rest.remove(k0);
        }
        left.insert(k, v);
    }
    proof {
        if obeys_key_model::<K>() {
            assert(left@ =~= l0.union_prefer_right(r0));
        }
    }
}

/// Adds the entries of `right` to `left`; on a shared key, `left`'s value
/// is kept.
pub fn append_or_ignore<K: Eq + Hash, V>(left: &mut HashMap<K, V>, right: HashMap<K, V>)
    ensures
        obeys_key_model::<K>() ==> {
            &&& final(left)@ == right@.union_prefer_right(old(left)@)
            &&& final(left)@.dom() == old(left)@.dom() + right@.dom()
        },
{
    let ghost l0 = left@;
    let ghost r0 = right@;
    let mut entries = into_entries(right);
    let ghost mut rest = r0;
    while entries.len() > 0
        invariant
            obeys_key_model::<K>() ==> {
                &&& lists_entries(entries@, rest)
                &&& forall|k: K| #[trigger] rest.contains_key(k) ==> r0.contains_key(k) && rest[k] == r0[k]
                &&& forall|k: K| #[trigger] left@.contains_key(k) <==> l0.contains_key(k) || (r0.contains_key(k) && !rest.contains_key(k))
                &&& forall|k: K| #[trigger] left@.contains_key(k) ==> left@[k] == if l0.contains_key(k) { l0[k] } else { r0[k] }
            },
        decreases entries.len(),
    {
        proof {
            if obeys_key_model::<K>() {
                lemma_pop_entry(entries@, rest);
            }
        }
        let ghost k0 = entries@.last().0;
        let (k, v) = entries.pop().unwrap();
        proof {
            rest = rest.remove(k0);
        }
        if !left.contains_key(&k) {
            left.insert(k, v);
        }
    }
    proof {
        if obeys_key_model::<K>() {
            assert(left@ =~= r0.union_prefer_right(l0));
        }
    }
}

/// Adds the entries of `right` to `left`; on a shared key, `right`'s value
/// is merged into `left`'s.
pub fn append_or_recurse<K: Eq + Hash, V: Merge>(left: &mut HashMap<K, V>, right: HashMap<K, V>)
    ensures
        obeys_key_model::<K>() ==> {
            &&& final(left)@ == merged_maps(old(left)@, right@)
            &&& final(left)@.dom() == old(left)@.dom() + right@.dom()
        },
{
    let ghost l0 = left@;
    let ghost r0 = right@;
    let mut entries = into_entries(right);
    let ghost mut rest = r0;
    while entries.len() > 0
        invariant
            obeys_key_model::<K>() ==> {
                &&& lists_entries(entries@, rest)
                &&& forall|k: K| #[trigger] rest.contains_key(k) ==> r0.contains_key(k) && rest[k] == r0[k]
                &&& forall|k: K| #[trigger] left@.contains_key(k) <==> l0.contains_key(k) || (r0.contains_key(k) && !rest.contains_key(k))
                &&& forall|k: K| #[trigger] left@.contains_key(k) ==> left@[k] == if l0.contains_key(k) && r0.contains_key(k) && !rest.contains_key(k) {
                    l0[k].merged(r0[k])
                } else if l0.contains_key(k) {
                    l0[k]
                } else {
                    r0[k]
                }
            },
        decreases entries.len(),
    {
        proof {
            if obeys_key_model::<K>() {
                lemma_pop_entry(entries@, rest);
            }
        }
        let ghost k0 = entries@.last().0;
        let (k, v) = entries.pop().unwrap();
        proof {
            rest = rest.remove(k0);
        }
        match left.remove(&k) {
            Some(existing) => {
                let mut existing = existing;
                existing.merge(v);
                left.insert(k, existing);
            },
            None => {
                left.insert(k, v);
            },
        }
    }
    proof {
        if obeys_key_model::<K>() {
            assert(left@ =~= merged_maps(l0, r0));
        }
    }
}

} // verus!
