//! The capability that a store must provide to the transaction layer.
use std::sync::Arc;
use vstd::prelude::*;

verus! {

/// What a store holds: byte-string keys mapped to byte-string values.
pub type Contents = Map<Seq<u8>, Seq<u8>>;

/// The one error of the transaction layer.
#[derive(Debug, PartialEq, Eq, Structural)]
pub enum QuadrilleError {
    /// The store could not fold a losing transaction's snapshot onto the
    /// latest committed one.
    KeyConflict,
    /// A commit lost every one of the publish attempts it was allowed.
    Contended,
}

/// The view of an optional value as an optional byte sequence.
pub open spec fn opt_bytes(o: Option<Vec<u8>>) -> Option<Seq<u8>> {
    match o {
        Some(v) => Some(v@),
        None => None,
    }
}

/// A pure, value-producing key-value store. No operation changes a store in
/// place: `insert` builds a new one and leaves the one it started from valid, so several
/// transactions can branch from the same snapshot.
pub trait KVStore: Sized {
    /// The map that this store holds.
    spec fn contents(&self) -> Contents;

    /// The store's merge policy: the snapshot obtained by folding `attempted`
    /// onto `latest`, or `None` when the two cannot be reconciled.
    spec fn resolution(latest: Contents, attempted: Contents) -> Option<Contents>;

    /// An empty store.
    fn default() -> (r: Self)
        ensures
            r.contents() == Map::<Seq<u8>, Seq<u8>>::empty(),
    ;

    /// The value stored under `key`, if any.
    fn get(&self, key: &[u8]) -> (r: Option<Vec<u8>>)
        ensures
            opt_bytes(r) == self.contents().get(key@),
    ;

    /// A new store equal to this one with `key` bound to `val`, and whether
    /// `key` was bound before.
    fn insert(&self, key: Vec<u8>, val: Vec<u8>) -> (r: (Self, bool))
        ensures
            r.0.contents() == self.contents().insert(key@, val@),
            r.1 == self.contents().contains_key(key@),
    ;

    /// Folds `prev`, the snapshot a losing transaction wanted to install, onto
    /// `basis`, the latest committed snapshot.
    fn resolve(basis: Arc<Self>, prev: Arc<Self>) -> (r: Result<Arc<Self>, QuadrilleError>)
        ensures
            match Self::resolution(basis.contents(), prev.contents()) {
                Some(m) => r is Ok && r->Ok_0.contents() == m,
                None => r == Err::<Arc<Self>, QuadrilleError>(QuadrilleError::KeyConflict),
            },
    ;
}

} // verus!
