//! The single shared version slot.
//!
//! [`Slot`] is the slot's sequential logic: a snapshot and the version that
//! names it, with versioned reads and version-conditioned writes. [`AtomicRoot`]
//! shares one slot between threads behind a short-held reader/writer lock, so
//! that each of its operations takes effect at one instant as one step of the
//! slot.
use std::sync::Arc;
use vstd::prelude::*;
use vstd::rwlock::{RwLock, RwLockPredicate};

use crate::store::{Contents, KVStore};

verus! {

/// Relies on `Arc::clone`: the result points to the same allocation, so it
/// is the same value.
#[verifier::external_body]
pub(crate) fn share<T>(a: &Arc<T>) -> (r: Arc<T>)
    ensures
        r == *a,
{
    Arc::clone(a)
}

/// The version that follows `v`. Versions count successful publishes and
/// wrap around after `u64::MAX` of them.
pub open spec fn next_version(v: u64) -> u64 {
    if v == u64::MAX {
        0
    } else {
        (v + 1) as u64
    }
}

/// The abstract state of a slot: the current version and what it holds.
pub ghost struct RootView {
    pub version: u64,
    pub contents: Contents,
}

impl RootView {
    /// The state after `candidate` is published unconditionally.
    pub open spec fn published(self, candidate: Contents) -> RootView {
        RootView { version: next_version(self.version), contents: candidate }
    }

    /// Whether a conditioned publish against `marker` succeeds.
    pub open spec fn accepts(self, marker: u64) -> bool {
        self.version == marker
    }

    /// The state after a publish of `candidate` conditioned on `marker`.
    pub open spec fn publish_if(self, marker: u64, candidate: Contents) -> RootView {
        if self.accepts(marker) {
            self.published(candidate)
        } else {
            self
        }
    }
}

/// An opaque token naming one version of a slot.
#[derive(Clone, Copy, Debug, PartialEq, Eq, Structural)]
pub struct Basis {
    version: u64,
}

impl Basis {
    /// The version this marker names.
    pub closed spec fn version(self) -> u64 {
        self.version
    }

    /// The marker of `version`.
    pub fn new(version: u64) -> (r: Basis)
        ensures
            r.version() == version,
    {
        Basis { version }
    }

    /// The version this marker names.
    pub fn unwrap(self) -> (r: u64)
        ensures
            r == self.version(),
    {
        self.version
    }
}

/// The slot's sequential logic: the current snapshot and its version.
pub struct Slot<T> {
    version: u64,
    current: Arc<T>,
}

impl<T: KVStore> Slot<T> {
    /// The abstract state of this slot.
    pub closed spec fn view(&self) -> RootView {
        RootView { version: self.version, contents: self.current.contents() }
    }

    /// The snapshot this slot holds.
    pub closed spec fn snapshot(&self) -> Arc<T> {
        self.current
    }

    /// A slot at version zero holding `val`.
    pub fn new(val: T) -> (r: Slot<T>)
        ensures
            r.view() == (RootView { version: 0, contents: val.contents() }),
            r.snapshot() == Arc::new(val),
    {
        Slot { version: 0, current: Arc::new(val) }
    }

    /// The current snapshot.
    pub fn read(&self) -> (r: Arc<T>)
        ensures
            r == self.snapshot(),
    {
        share(&self.current)
    }

    /// The current snapshot together with the marker of its version.
    pub fn basis(&self) -> (r: (Basis, Arc<T>))
        ensures
            r.0.version() == self.view().version,
            r.1 == self.snapshot(),
    {
        (Basis::new(self.version), share(&self.current))
    }

    /// Installs `val` unconditionally and returns the displaced snapshot.
    pub fn publish(&mut self, val: Arc<T>) -> (r: Arc<T>)
        ensures
            final(self).view() == old(self).view().published(val.contents()),
            final(self).snapshot() == val,
            r == old(self).snapshot(),
    {
        let next = self.version.wrapping_add(1);
        self.version = next;
        let prev = share(&self.current);
        self.current = val;
        prev
    }

    /// Installs `candidate` if the current version is the one `basis` names,
    /// returning the displaced snapshot; otherwise changes nothing and hands
    /// `candidate` back untouched.
    pub fn publish_if(&mut self, basis: Basis, candidate: Arc<T>) -> (r: Result<Arc<T>, Arc<T>>)
        ensures
            final(self).view() == old(self).view().publish_if(basis.version(), candidate.contents()),
            match r {
                Ok(prev) => old(self).view().accepts(basis.version()) && prev == old(self).snapshot()
                    && final(self).snapshot() == candidate,
                Err(c) => !old(self).view().accepts(basis.version()) && c == candidate
                    && *final(self) == *old(self),
            },
    {
        if self.version == basis.unwrap() {
            Ok(self.publish(candidate))
        } else {
            Err(candidate)
        }
    }
}

/// The lock's invariant: any slot may stand in it.
struct AnySlot;

impl<T> RwLockPredicate<Slot<T>> for AnySlot {
    open spec fn inv(self, v: Slot<T>) -> bool {
        true
    }
}

/// One slot shared between threads. Each operation takes the lock, performs
/// one step of [`Slot`], and releases it; other threads may step the slot
/// between two calls, so a caller learns only what holds of every such step.
pub struct AtomicRoot<T> {
    inner: RwLock<Slot<T>, AnySlot>,
}

impl<T: KVStore> AtomicRoot<T> {
    /// A root whose first version holds `val`.
    pub fn new(val: T) -> (r: AtomicRoot<T>) {
        AtomicRoot { inner: RwLock::new(Slot::new(val), Ghost(AnySlot)) }
    }

    /// The snapshot current at the instant of the call.
    pub fn get(&self) -> (r: Arc<T>) {
        let handle = self.inner.acquire_read();
        let out = handle.borrow().read();
        handle.release_read();
        out
    }

    /// Installs `val` unconditionally and returns the snapshot it displaced.
    pub fn swap(&self, val: Arc<T>) -> (r: Arc<T>) {
        let (mut slot, handle) = self.inner.acquire_write();
        let prev = slot.publish(val);
        handle.release_write(slot);
        prev
    }

    /// The current snapshot and the marker of its version, read at one
    /// instant.
    pub fn basis(&self) -> (r: (Basis, Arc<T>)) {
        let handle = self.inner.acquire_read();
        let out = handle.borrow().basis();
        handle.release_read();
        out
    }

    /// Installs `new` if the root is still at the version `basis` names and
    /// returns the displaced snapshot; otherwise hands `new` back untouched.
    pub fn compare_swap(&self, basis: Basis, new: Arc<T>) -> (r: Result<Arc<T>, Arc<T>>)
        ensures
            r is Err ==> r->Err_0 == new,
    {
        let (mut slot, handle) = self.inner.acquire_write();
        let out = slot.publish_if(basis, new);
        handle.release_write(slot);
        out
    }
}

} // verus!
