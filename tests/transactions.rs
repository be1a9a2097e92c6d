use std::sync::Arc;

use quadrille::stores::NaiveBTree;
use quadrille::{AtomicRoot, KVStore, Quadrille, QuadrilleError};

#[test]
fn read_stability_two_gets_agree() {
    let kv = Quadrille::<NaiveBTree>::new();
    let mut tx = kv.transaction();
    tx.insert(vec![1, 2], vec![3]);
    assert_eq!(tx.get(&[1, 2]), tx.get(&[1, 2]));
    assert_eq!(tx.get(&[1, 2]), Some(vec![3]));
    assert_eq!(tx.get(&[7]), tx.get(&[7]));
}

#[test]
fn isolation_uncommitted_write_unseen() {
    let kv = Quadrille::<NaiveBTree>::new();
    let mut a = kv.transaction();
    let b = kv.transaction();
    assert!(!a.insert(vec![5], vec![6]));
    assert_eq!(a.get(&[5]), Some(vec![6]));
    assert_eq!(b.get(&[5]), None);
    let c = kv.transaction();
    assert_eq!(c.get(&[5]), None);
}

#[test]
fn commit_makes_writes_visible() {
    let kv = Quadrille::<NaiveBTree>::new();
    let mut a = kv.transaction();
    a.insert(vec![1], vec![10]);
    a.insert(vec![2], vec![20]);
    let kv2 = match a.commit() {
        Ok(q) => q,
        Err(_) => panic!("commit failed"),
    };
    let c = kv.transaction();
    assert_eq!(c.get(&[1]), Some(vec![10]));
    assert_eq!(c.get(&[2]), Some(vec![20]));
    let d = kv2.transaction();
    assert_eq!(d.get(&[2]), Some(vec![20]));
}

#[test]
fn conflict_path_refusing_store() {
    let kv = Quadrille::<NaiveBTree>::new();
    let mut a = kv.transaction();
    let mut b = kv.transaction();
    a.insert(vec![0], vec![1]);
    b.insert(vec![0], vec![2]);
    assert!(a.commit().is_ok());
    assert_eq!(b.commit().err(), Some(QuadrilleError::KeyConflict));
    let c = kv.transaction();
    assert_eq!(c.get(&[0]), Some(vec![1]));
}

#[test]
fn commit_with_no_attempts_is_contended() {
    let kv = Quadrille::<NaiveBTree>::new();
    let mut a = kv.transaction();
    a.insert(vec![4], vec![4]);
    assert_eq!(a.commit_within(0).err(), Some(QuadrilleError::Contended));
    let c = kv.transaction();
    assert_eq!(c.get(&[4]), None);
}

#[test]
fn sequential_commits_both_succeed() {
    let kv = Quadrille::<NaiveBTree>::new();
    let mut a = kv.transaction();
    a.insert(vec![1], vec![1]);
    assert!(a.commit().is_ok());
    let mut b = kv.transaction();
    assert!(!b.insert(vec![2], vec![2]));
    assert!(b.insert(vec![1], vec![3]));
    assert!(b.commit().is_ok());
    let c = kv.transaction();
    assert_eq!(c.get(&[1]), Some(vec![3]));
    assert_eq!(c.get(&[2]), Some(vec![2]));
}

#[test]
fn abandoned_transaction_has_no_effect() {
    let kv = Quadrille::<NaiveBTree>::new();
    {
        let mut a = kv.transaction();
        a.insert(vec![8], vec![8]);
    }
    let c = kv.transaction();
    assert_eq!(c.get(&[8]), None);
}

#[test]
fn naive_store_insert_and_get() {
    let s = <NaiveBTree as KVStore>::default();
    assert_eq!(KVStore::get(&s, &[1]), None);
    let (s1, found) = KVStore::insert(&s, vec![1], vec![2]);
    assert!(!found);
    let (s2, found) = KVStore::insert(&s1, vec![1], vec![3]);
    assert!(found);
    let (s3, found) = KVStore::insert(&s2, vec![], vec![]);
    assert!(!found);
    assert_eq!(KVStore::get(&s, &[1]), None);
    assert_eq!(KVStore::get(&s1, &[1]), Some(vec![2]));
    assert_eq!(KVStore::get(&s2, &[1]), Some(vec![3]));
    assert_eq!(KVStore::get(&s3, &[]), Some(vec![]));
    assert_eq!(KVStore::get(&s3, &[1, 0]), None);
}

#[test]
fn naive_store_always_conflicts() {
    let s = Arc::new(<NaiveBTree as KVStore>::default());
    let t = Arc::new(<NaiveBTree as KVStore>::default());
    assert_eq!(NaiveBTree::resolve(s, t).err(), Some(QuadrilleError::KeyConflict));
}

#[test]
fn root_compare_swap_and_swap() {
    let root = AtomicRoot::new(<NaiveBTree as KVStore>::default());
    let (m0, s0) = root.basis();
    assert_eq!(m0.unwrap(), 0);
    assert_eq!(KVStore::get(&*s0, &[1]), None);
    let (n1, _) = KVStore::insert(&*s0, vec![1], vec![1]);
    let cand = Arc::new(n1);
    let displaced = root.compare_swap(m0, cand.clone());
    assert!(displaced.is_ok());
    assert_eq!(KVStore::get(&*root.get(), &[1]), Some(vec![1]));
    let (n2, _) = KVStore::insert(&*s0, vec![2], vec![2]);
    let cand2 = Arc::new(n2);
    match root.compare_swap(m0, cand2.clone()) {
        Ok(_) => panic!("stale marker accepted"),
        Err(back) => assert!(Arc::ptr_eq(&back, &cand2)),
    }
    assert_eq!(KVStore::get(&*root.get(), &[2]), None);
    let (m1, _) = root.basis();
    assert_eq!(m1.unwrap(), 1);
    let prev = root.swap(cand2);
    assert!(Arc::ptr_eq(&prev, &cand));
    assert_eq!(KVStore::get(&*root.get(), &[2]), Some(vec![2]));
    assert!(root.compare_swap(m1, cand).is_err());
}
