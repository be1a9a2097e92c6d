//! What holds of transactions over the root's sequence of versions.
//!
//! Each operation of [`crate::AtomicRoot`] is one step of
//! [`crate::root::RootView`], and each operation of [`crate::Transation`] one
//! step of [`TxView`]; the statements below are over those steps.
use vstd::prelude::*;

use crate::root::{next_version, RootView};
use crate::store::{Contents, KVStore};
use crate::stores::MergingBTree;
use crate::transaction::TxView;

verus! {

/// A store policy that merges: it never refuses, and what it produces binds
/// every key that either side binds.
pub open spec fn merging<T: KVStore>() -> bool {
    forall|l: Contents, a: Contents|
        {
            let m = #[trigger] T::resolution(l, a);
            &&& m is Some
            &&& forall|k: Seq<u8>|
                l.contains_key(k) || a.contains_key(k) ==> m->Some_0.contains_key(k)
        }
}

/// The policy of [`MergingBTree`] merges.
pub proof fn lemma_merging_btree_merges()
    ensures
        merging::<MergingBTree>(),
{
}

/// A version never names the version after it.
pub proof fn lemma_next_version_differs(v: u64)
    ensures
        next_version(v) != v,
{
}

/// Isolation: of two transactions opened on the same version, one that binds
/// `key` to `val` and has not published reads `val`, while the other reads
/// what that version holds under `key`.
pub proof fn lemma_isolation(r: RootView, key: Seq<u8>, val: Seq<u8>)
    ensures
        TxView::opened(r).inserted(key, val).lookup(key) == Some(val),
        TxView::opened(r).lookup(key) == r.contents.get(key),
{
}

/// Atomic visibility: once a transaction's conditioned publish succeeds, a
/// transaction opened on the new version reads everything the committed
/// working snapshot held.
pub proof fn lemma_commit_visible(r: RootView, t: TxView, key: Seq<u8>)
    requires
        r.accepts(t.marker),
    ensures
        TxView::opened(r.publish_if(t.marker, t.current)).lookup(key) == t.lookup(key),
{
}

/// Conflict path: two transactions open on one version and bind the same key.
/// The first publishes; the second's publish then fails and leaves the root
/// as the first left it, and the second is folded onto exactly the first's
/// committed snapshot. When the store refuses that fold, the second commit
/// ends in conflict and the root still holds the first's value.
pub proof fn lemma_conflict_path<T: KVStore>(
    r: RootView,
    key: Seq<u8>,
    v1: Seq<u8>,
    v2: Seq<u8>,
)
    ensures
        ({
            let a = TxView::opened(r).inserted(key, v1);
            let b = TxView::opened(r).inserted(key, v2);
            let r1 = r.publish_if(a.marker, a.current);
            &&& r1.contents == a.current
            &&& !r1.accepts(b.marker)
            &&& r1.publish_if(b.marker, b.current) == r1
            &&& b.rebased::<T>(r1.version, r1.contents) == match T::resolution(
                a.current,
                b.current,
            ) {
                Some(m) => Some(TxView { marker: r1.version, basis: a.current, current: m }),
                None => None::<TxView>,
            }
            &&& T::resolution(a.current, b.current) is None ==> b.rebased::<T>(
                r1.version,
                r1.contents,
            ) is None && r1.contents.get(key) == Some(v1)
        }),
{
    lemma_next_version_differs(r.version);
}

/// Disjoint-key merge: two transactions open on one version and bind
/// different keys; the first publishes. Under a merging store policy the
/// second is folded onto the first's committed snapshot, its next publish
/// succeeds, and the root then binds both keys.
pub proof fn lemma_disjoint_merge<T: KVStore>(
    r: RootView,
    k1: Seq<u8>,
    v1: Seq<u8>,
    k2: Seq<u8>,
    v2: Seq<u8>,
)
    requires
        merging::<T>(),
    ensures
        ({
            let a = TxView::opened(r).inserted(k1, v1);
            let b = TxView::opened(r).inserted(k2, v2);
            let r1 = r.publish_if(a.marker, a.current);
            let b2 = b.rebased::<T>(r1.version, r1.contents);
            &&& !r1.accepts(b.marker)
            &&& b2 is Some
            &&& b2->Some_0.basis == a.current
            &&& r1.accepts(b2->Some_0.marker)
            &&& r1.publish_if(b2->Some_0.marker, b2->Some_0.current).contents.contains_key(k1)
            &&& r1.publish_if(b2->Some_0.marker, b2->Some_0.current).contents.contains_key(k2)
        }),
{
    lemma_next_version_differs(r.version);
    let a = TxView::opened(r).inserted(k1, v1);
    let b = TxView::opened(r).inserted(k2, v2);
    assert(a.current.contains_key(k1));
    assert(b.current.contains_key(k2));
    let m = T::resolution(a.current, b.current);
    assert(m is Some);
}

} // verus!
