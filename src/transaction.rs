//! Transactions and the handle that opens them.
use std::sync::Arc;
use vstd::prelude::*;

use crate::root::{share, AtomicRoot, Basis, RootView};
use crate::store::{opt_bytes, Contents, KVStore, QuadrilleError};

verus! {

/// How many publish attempts [`Transation::commit`] makes before it gives up.
pub const COMMIT_ATTEMPTS: u64 = u64::MAX;

/// The abstract state of a transaction: the version it last observed, the
/// snapshot of that version, and its working snapshot.
pub ghost struct TxView {
    pub marker: u64,
    pub basis: Contents,
    pub current: Contents,
}

impl TxView {
    /// A transaction freshly opened on a root in state `r`.
    pub open spec fn opened(r: RootView) -> TxView {
        TxView { marker: r.version, basis: r.contents, current: r.contents }
    }

    /// What the transaction reads under `key`.
    pub open spec fn lookup(self, key: Seq<u8>) -> Option<Seq<u8>> {
        self.current.get(key)
    }

    /// The transaction after it binds `key` to `val`.
    pub open spec fn inserted(self, key: Seq<u8>, val: Seq<u8>) -> TxView {
        TxView { current: self.current.insert(key, val), ..self }
    }

    /// The transaction after its working snapshot is folded, by the store's
    /// policy, onto the version `marker` holding `basis`; `None` when the
    /// store refuses.
    pub open spec fn rebased<T: KVStore>(self, marker: u64, basis: Contents) -> Option<TxView> {
        match T::resolution(basis, self.current) {
            Some(m) => Some(TxView { marker, basis, current: m }),
            None => None,
        }
    }
}

/// A handle on one shared root, from which transactions are opened.
pub struct Quadrille<T: KVStore> {
    inner: Arc<AtomicRoot<T>>,
}

/// An isolated read/write session on one root. Reads and writes go to a
/// private working snapshot; `commit` publishes it.
pub struct Transation<T: KVStore> {
    kv: Arc<AtomicRoot<T>>,
    basis_marker: Basis,
    basis: Arc<T>,
    current: Arc<T>,
}

impl<T: KVStore> View for Transation<T> {
    type V = TxView;

    closed spec fn view(&self) -> TxView {
        TxView {
            marker: self.basis_marker.version(),
            basis: self.basis.contents(),
            current: self.current.contents(),
        }
    }
}

impl<T: KVStore> Transation<T> {
    /// The root this transaction publishes to.
    pub closed spec fn root(&self) -> Arc<AtomicRoot<T>> {
        self.kv
    }

    /// The value under `key` in the working snapshot; the root is not read.
    pub fn get(&self, key: &[u8]) -> (r: Option<Vec<u8>>)
        ensures
            opt_bytes(r) == self@.lookup(key@),
    {
        self.current.get(key)
    }

    /// Binds `key` to `val` in the working snapshot and returns whether `key`
    /// was bound there before; the root is not touched.
    pub fn insert(&mut self, key: Vec<u8>, val: Vec<u8>) -> (r: bool)
        ensures
            final(self)@ == old(self)@.inserted(key@, val@),
            final(self).root() == old(self).root(),
            r == old(self)@.current.contains_key(key@),
    {
        let (new, found) = self.current.insert(key, val);
        self.current = Arc::new(new);
        found
    }

    /// Folds the working snapshot onto `snapshot`, the version that `basis`
    /// names, by the store's policy, and adopts that version as the new basis.
    /// When the store refuses, nothing changes.
    pub fn rebase(&mut self, basis: Basis, snapshot: Arc<T>) -> (r: Result<(), QuadrilleError>)
        ensures
            final(self).root() == old(self).root(),
            match old(self)@.rebased::<T>(basis.version(), snapshot.contents()) {
                Some(t) => r is Ok && final(self)@ == t,
                None => r == Err::<(), QuadrilleError>(QuadrilleError::KeyConflict) && final(self)@
                    == old(self)@,
            },
    {
        let merged = T::resolve(share(&snapshot), share(&self.current))?;
        self.basis_marker = basis;
        self.basis = snapshot;
        self.current = merged;
        Ok(())
    }

    /// Observes the root's current version and folds the working snapshot
    /// onto it.
    fn update_basis(&mut self) -> (r: Result<(), QuadrilleError>)
        ensures
            final(self).root() == old(self).root(),
            r is Err ==> r == Err::<(), QuadrilleError>(QuadrilleError::KeyConflict) && exists|
                l: Contents,
            | T::resolution(l, old(self)@.current) is None,
    {
        let (marker, snapshot) = self.kv.basis();
        self.rebase(marker, snapshot)
    }

    /// Publishes the working snapshot, making at most `attempts` conditioned
    /// publishes. After each one that loses to another writer, the working
    /// snapshot is folded onto the newly observed version before the next.
    /// On success the returned handle shares this transaction's root.
    pub fn commit_within(self, attempts: u64) -> (r: Result<Quadrille<T>, QuadrilleError>)
        ensures
            r is Ok ==> r->Ok_0.root() == self.root(),
            r == Err::<Quadrille<T>, QuadrilleError>(QuadrilleError::KeyConflict) ==> exists|
                l: Contents,
                a: Contents,
            | T::resolution(l, a) is None,
            attempts == 0 ==> r == Err::<Quadrille<T>, QuadrilleError>(QuadrilleError::Contended),
    {
        let mut tx = self;
        let mut tries: u64 = 0;
        while tries < attempts
            invariant
                tx.root() == self.root(),
            decreases attempts - tries,
        {
            match tx.kv.compare_swap(tx.basis_marker, share(&tx.current)) {
                Ok(_) => {
                    return Ok(Quadrille { inner: tx.kv });
                },
                Err(_) => {
                    tx.update_basis()?;
                },
            }
            tries = tries + 1;
        }
        Err(QuadrilleError::Contended)
    }

    /// Publishes the working snapshot, retrying through the store's `resolve`
    /// until a publish succeeds or the store reports a conflict (see
    /// [`COMMIT_ATTEMPTS`] for the bound on retries).
    pub fn commit(self) -> (r: Result<Quadrille<T>, QuadrilleError>)
        ensures
            r is Ok ==> r->Ok_0.root() == self.root(),
            r == Err::<Quadrille<T>, QuadrilleError>(QuadrilleError::KeyConflict) ==> exists|
                l: Contents,
                a: Contents,
            | T::resolution(l, a) is None,
    {
        self.commit_within(COMMIT_ATTEMPTS)
    }
}

impl<T: KVStore> Clone for Quadrille<T> {
    /// Another handle on the same root.
    fn clone(&self) -> (r: Quadrille<T>)
        ensures
            r.root() == self.root(),
    {
        Quadrille { inner: share(&self.inner) }
    }
}

impl<T: KVStore> Quadrille<T> {
    /// The root this handle opens transactions on.
    pub closed spec fn root(&self) -> Arc<AtomicRoot<T>> {
        self.inner
    }

    /// Opens a transaction on the version current at the instant of the call;
    /// it starts with no pending writes.
    pub fn transaction(&self) -> (r: Transation<T>)
        ensures
            r.root() == self.root(),
            r@.current == r@.basis,
    {
        let tx_root = share(&self.inner);
        let (basis_marker, basis) = tx_root.basis();
        let current = share(&basis);
        Transation { kv: tx_root, basis_marker, basis, current }
    }

    /// A handle on a fresh root holding an empty store.
    pub fn new() -> (r: Quadrille<T>) {
        let root = AtomicRoot::new(T::default());
        Quadrille { inner: Arc::new(root) }
    }
}

} // verus!
