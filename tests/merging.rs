use std::sync::Arc;

use quadrille::stores::MergingBTree;
use quadrille::{Basis, KVStore, Quadrille};

#[test]
fn disjoint_keys_merge_after_lost_race() {
    let kv = Quadrille::<MergingBTree>::new();
    let mut a = kv.transaction();
    let mut b = kv.transaction();
    a.insert(vec![1], vec![11]);
    b.insert(vec![2], vec![22]);
    assert!(a.commit().is_ok());
    assert!(b.commit().is_ok());
    let c = kv.transaction();
    assert_eq!(c.get(&[1]), Some(vec![11]));
    assert_eq!(c.get(&[2]), Some(vec![22]));
}

#[test]
fn rebase_folds_onto_observed_version() {
    let kv = Quadrille::<MergingBTree>::new();
    let mut a = kv.transaction();
    a.insert(vec![1], vec![1]);
    assert!(a.commit().is_ok());
    let mut b = Quadrille::<MergingBTree>::new().transaction();
    b.insert(vec![2], vec![2]);
    let root = kv.transaction();
    let snap = <MergingBTree as KVStore>::default();
    let snap = KVStore::insert(&snap, vec![1], vec![1]).0;
    assert!(b.rebase(Basis::new(7), Arc::new(snap)).is_ok());
    assert_eq!(b.get(&[1]), Some(vec![1]));
    assert_eq!(b.get(&[2]), Some(vec![2]));
    assert_eq!(root.get(&[2]), None);
}

#[test]
fn interleaved_commits_lose_no_key() {
    let kv = Quadrille::<MergingBTree>::new();
    let mut open = Vec::new();
    for key in 0..40u8 {
        let mut tx = kv.transaction();
        tx.insert(vec![key], vec![key + 100]);
        open.push(tx);
    }
    let mut committed = 0;
    for tx in open {
        if tx.commit().is_ok() {
            committed += 1;
        }
    }
    assert_eq!(committed, 40);
    let c = kv.transaction();
    for key in 0..40u8 {
        assert_eq!(c.get(&[key]), Some(vec![key + 100]));
    }
    assert_eq!(c.get(&[40]), None);
    let other = kv.clone();
    assert_eq!(other.transaction().get(&[3]), Some(vec![103]));
}

#[test]
fn merging_resolve_prefers_losing_side() {
    let empty = <MergingBTree as KVStore>::default();
    let (latest, _) = KVStore::insert(&empty, vec![1], vec![1]);
    let (latest, _) = KVStore::insert(&latest, vec![3], vec![3]);
    let (attempted, _) = KVStore::insert(&empty, vec![1], vec![9]);
    let (attempted, _) = KVStore::insert(&attempted, vec![2], vec![2]);
    let merged = match MergingBTree::resolve(Arc::new(latest), Arc::new(attempted)) {
        Ok(m) => m,
        Err(_) => panic!("merging store refused"),
    };
    assert_eq!(KVStore::get(&*merged, &[1]), Some(vec![9]));
    assert_eq!(KVStore::get(&*merged, &[2]), Some(vec![2]));
    assert_eq!(KVStore::get(&*merged, &[3]), Some(vec![3]));
    assert_eq!(KVStore::get(&*merged, &[4]), None);
}

#[test]
fn same_key_race_merging_store_keeps_later_commit() {
    let kv = Quadrille::<MergingBTree>::new();
    let mut a = kv.transaction();
    let mut b = kv.transaction();
    a.insert(vec![0], vec![1]);
    b.insert(vec![0], vec![2]);
    assert!(a.commit().is_ok());
    assert!(b.commit().is_ok());
    assert_eq!(kv.transaction().get(&[0]), Some(vec![2]));
}
