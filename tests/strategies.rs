use std::collections::{BTreeMap, HashMap};

use conflate::Merge;

fn check<T: std::fmt::Debug + PartialEq>(expected: T, mut left: T, right: T, strategy: fn(&mut T, T)) {
    strategy(&mut left, right);
    assert_eq!(expected, left);
}

#[derive(Debug, PartialEq)]
struct N(u8);

impl Merge for N {
    fn merge(&mut self, other: Self) {
        conflate::num::saturating_add(&mut self.0, other.0);
    }
}

fn hash_map<V>(entries: Vec<(u8, V)>) -> HashMap<u8, V> {
    let mut map = HashMap::default();
    for (k, v) in entries {
        map.insert(k, v);
    }
    map
}

fn btree_map<V>(entries: Vec<(u8, V)>) -> BTreeMap<u8, V> {
    let mut map = BTreeMap::default();
    for (k, v) in entries {
        map.insert(k, v);
    }
    map
}

#[test]
fn test_option_overwrite_none() {
    let f = conflate::option::overwrite_none::<u8>;
    check(Some(1), Some(1), Some(2), f);
    check(Some(2), None, Some(2), f);
    check(None, None, None, f);
}

#[test]
fn test_option_overwrite_with_some() {
    let f = conflate::option::overwrite_with_some::<u8>;
    check(Some(2), Some(1), Some(2), f);
    check(Some(1), Some(1), None, f);
    check(Some(2), None, Some(2), f);
    check(None, None, None, f);
}

#[test]
fn test_option_recursive() {
    let f = conflate::option::recurse::<N>;
    check(Some(N(3)), Some(N(1)), Some(N(2)), f);
    check(Some(N(1)), Some(N(1)), None, f);
    check(Some(N(1)), None, Some(N(1)), f);
    check(None, None, None, f);
}

#[test]
fn test_bool_overwrite_false() {
    let f = conflate::bool::overwrite_false;
    check(false, false, false, f);
    check(true, false, true, f);
    check(true, true, false, f);
    check(true, true, true, f);
}

#[test]
fn test_bool_overwrite_true() {
    let f = conflate::bool::overwrite_true;
    check(false, false, false, f);
    check(false, false, true, f);
    check(false, true, false, f);
    check(true, true, true, f);
}

#[test]
fn test_num_saturating_add() {
    let f = conflate::num::saturating_add::<u8>;
    check(0, 0, 0, f);
    check(1, 0, 1, f);
    check(255, 255, 10, f);
    check(40, 30, 10, f);
}

#[test]
fn test_num_saturating_add_wider_types() {
    check(u64::MAX, u64::MAX - 1, 5, conflate::num::saturating_add::<u64>);
    check(300, 100, 200, conflate::num::saturating_add::<u16>);
    check(usize::MAX, usize::MAX, usize::MAX, conflate::num::saturating_add::<usize>);
}

#[test]
fn test_num_overwrite_zero() {
    let f = conflate::num::overwrite_zero::<u8>;
    check(0, 0, 0, f);
    check(1, 0, 1, f);
    check(255, 255, 10, f);
}

#[test]
fn test_ord_max() {
    let f = conflate::ord::max::<u8>;
    check(2, 1, 2, f);
    check(2, 2, 1, f);
    check(2, 2, 2, f);
    check(2, 2, 0, f);
    check(2, 0, 2, f);
    check(33, 33, 11, f);
}

#[test]
fn test_ord_min() {
    let f = conflate::ord::min::<u8>;
    check(1, 1, 2, f);
    check(1, 2, 1, f);
    check(2, 2, 2, f);
    check(0, 2, 0, f);
    check(0, 0, 2, f);
    check(11, 33, 11, f);
}

/// Ordered by `rank` alone, so that two values can tie and still differ.
#[derive(Debug, PartialEq, Eq)]
struct Ranked {
    rank: u8,
    name: &'static str,
}

impl PartialOrd for Ranked {
    fn partial_cmp(&self, other: &Self) -> Option<std::cmp::Ordering> {
        Some(self.cmp(other))
    }
}

impl Ord for Ranked {
    fn cmp(&self, other: &Self) -> std::cmp::Ordering {
        self.rank.cmp(&other.rank)
    }
}

#[test]
fn test_ord_left_wins_ties() {
    let left = || Ranked { rank: 5, name: "left" };
    let right = || Ranked { rank: 5, name: "right" };
    check(left(), left(), right(), conflate::ord::max::<Ranked>);
    check(left(), left(), right(), conflate::ord::min::<Ranked>);
    check(Ranked { rank: 6, name: "right" }, left(), Ranked { rank: 6, name: "right" }, conflate::ord::max::<Ranked>);
}

#[test]
fn test_vec_overwrite_empty() {
    let f = conflate::vec::overwrite_empty::<u8>;
    check(vec![], vec![], vec![], f);
    check(vec![1], vec![], vec![1], f);
    check(vec![0], vec![0], vec![1], f);
    check(vec![255], vec![255], vec![10], f);
}

#[test]
fn test_vec_append() {
    let f = conflate::vec::append::<u8>;
    check(vec![], vec![], vec![], f);
    check(vec![1], vec![], vec![1], f);
    check(vec![0, 1], vec![0], vec![1], f);
    check(vec![255, 10], vec![255], vec![10], f);
    check(vec![0, 1, 2, 3, 4], vec![0, 1, 2], vec![3, 4], f);
    check(vec![3, 4, 0, 1, 2], vec![3, 4], vec![0, 1, 2], f);
}

#[test]
fn test_vec_prepend() {
    let f = conflate::vec::prepend::<u8>;
    check(vec![], vec![], vec![], f);
    check(vec![1], vec![], vec![1], f);
    check(vec![1, 0], vec![0], vec![1], f);
    check(vec![10, 255], vec![255], vec![10], f);
    check(vec![3, 4, 0, 1, 2], vec![0, 1, 2], vec![3, 4], f);
    check(vec![0, 1, 2, 3, 4], vec![3, 4], vec![0, 1, 2], f);
}

#[test]
fn test_vec_append_mirrors_prepend() {
    let mut appended = vec![1u8, 2];
    conflate::vec::append(&mut appended, vec![3, 4]);
    let mut prepended = vec![3u8, 4];
    conflate::vec::prepend(&mut prepended, vec![1, 2]);
    assert_eq!(appended, prepended);
}

#[test]
fn test_iter_extend() {
    let f = conflate::iter::extend::<u8>;
    check(vec![], vec![], vec![], f);
    check(vec![0, 1, 2], vec![0], vec![1, 2], f);
}

#[test]
fn test_overwrite() {
    let f = conflate::hashmap::append_or_overwrite::<u8, u8>;
    check(hash_map(vec![(1, 2)]), hash_map(vec![(1, 1)]), hash_map(vec![(1, 2)]), f);
    check(hash_map(vec![(1, 1)]), hash_map(vec![(1, 2)]), hash_map(vec![(1, 1)]), f);
    check(hash_map(vec![(0, 1), (1, 2)]), hash_map(vec![(0, 1)]), hash_map(vec![(1, 2)]), f);
}

#[test]
fn test_ignore() {
    let f = conflate::hashmap::append_or_ignore::<u8, u8>;
    check(hash_map(vec![(1, 1)]), hash_map(vec![(1, 1)]), hash_map(vec![(1, 2)]), f);
    check(hash_map(vec![(1, 2)]), hash_map(vec![(1, 2)]), hash_map(vec![(1, 1)]), f);
    check(hash_map(vec![(0, 1), (1, 2)]), hash_map(vec![(0, 1)]), hash_map(vec![(1, 2)]), f);
}

#[test]
fn test_recurse() {
    let f = conflate::hashmap::append_or_recurse::<u8, N>;
    check(hash_map(vec![(1, N(3))]), hash_map(vec![(1, N(1))]), hash_map(vec![(1, N(2))]), f);
    check(hash_map(vec![(1, N(3))]), hash_map(vec![(1, N(2))]), hash_map(vec![(1, N(1))]), f);
    check(
        hash_map(vec![(0, N(1)), (1, N(2))]),
        hash_map(vec![(0, N(1))]),
        hash_map(vec![(1, N(2))]),
        f,
    );
}

#[test]
fn test_hashmap_key_union() {
    let mut left = hash_map(vec![(1, 10), (2, 20)]);
    conflate::hashmap::append_or_overwrite(&mut left, hash_map(vec![(2, 99), (3, 30)]));
    assert_eq!(hash_map(vec![(1, 10), (2, 99), (3, 30)]), left);

    let mut left = hash_map(vec![(1, 10), (2, 20)]);
    conflate::hashmap::append_or_ignore(&mut left, hash_map(vec![(2, 99), (3, 30)]));
    assert_eq!(hash_map(vec![(1, 10), (2, 20), (3, 30)]), left);

    let mut left: HashMap<u8, u8> = HashMap::new();
    conflate::hashmap::append_or_ignore(&mut left, HashMap::new());
    assert!(left.is_empty());
}

#[test]
fn test_btreemap_strategies() {
    let mut left = btree_map(vec![(1, 10), (2, 20)]);
    conflate::btreemap::append_or_overwrite(&mut left, btree_map(vec![(2, 99), (3, 30)]));
    assert_eq!(btree_map(vec![(1, 10), (2, 99), (3, 30)]), left);

    let mut left = btree_map(vec![(1, 10), (2, 20)]);
    conflate::btreemap::append_or_ignore(&mut left, btree_map(vec![(2, 99), (3, 30)]));
    assert_eq!(btree_map(vec![(1, 10), (2, 20), (3, 30)]), left);

    let mut left = btree_map(vec![(0, N(1)), (1, N(250))]);
    conflate::btreemap::append_or_recurse(&mut left, btree_map(vec![(1, N(10)), (2, N(2))]));
    assert_eq!(btree_map(vec![(0, N(1)), (1, N(255)), (2, N(2))]), left);
}
