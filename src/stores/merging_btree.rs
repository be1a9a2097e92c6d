//! A copy-on-write store that merges a losing transaction into the latest
//! version instead of refusing it.
use std::sync::Arc;
use vstd::prelude::*;

use crate::store::{Contents, KVStore, QuadrilleError};
use crate::stores::naive_btree::NaiveBTree;

verus! {

/// A store whose merge policy keeps every binding of the latest version and
/// lays the losing transaction's bindings over them.
pub struct MergingBTree {
    table: NaiveBTree,
}

impl KVStore for MergingBTree {
    closed spec fn contents(&self) -> Contents {
        self.table.contents()
    }

    /// The losing snapshot's bindings win over the latest version's.
    open spec fn resolution(latest: Contents, attempted: Contents) -> Option<Contents> {
        Some(latest.union_prefer_right(attempted))
    }

    fn default() -> (r: Self) {
        MergingBTree { table: NaiveBTree::default() }
    }

    fn get(&self, key: &[u8]) -> (r: Option<Vec<u8>>) {
        self.table.get(key)
    }

    fn insert(&self, key: Vec<u8>, val: Vec<u8>) -> (r: (Self, bool)) {
        let (table, found) = self.table.insert(key, val);
        (MergingBTree { table }, found)
    }

    fn resolve(basis: Arc<Self>, prev: Arc<Self>) -> (r: Result<Arc<Self>, QuadrilleError>) {
        let table = basis.table.absorb(&prev.table);
        Ok(Arc::new(MergingBTree { table }))
    }
}

} // verus!
