//! A simple copy-on-write store: every insert copies the whole table, and a
//! losing transaction is never merged.
use std::sync::Arc;
use vstd::prelude::*;

use crate::store::{opt_bytes, Contents, KVStore, QuadrilleError};

verus! {

/// One binding of the table.
pub type Entry = (Vec<u8>, Vec<u8>);

/// The map that a sequence of bindings denotes; a later binding of a key
/// overrides an earlier one.
pub open spec fn entries_map(s: Seq<Entry>) -> Contents
    decreases s.len(),
{
    if s.len() == 0 {
        Map::empty()
    } else {
        entries_map(s.drop_last()).insert(s.last().0@, s.last().1@)
    }
}

/// No two bindings share a key.
pub open spec fn keys_unique(s: Seq<Entry>) -> bool {
    forall|i: int, j: int| 0 <= i < j < s.len() ==> s[i].0@ != s[j].0@
}

proof fn lemma_entries_map_at(s: Seq<Entry>, i: int)
    requires
        keys_unique(s),
        0 <= i < s.len(),
    ensures
        entries_map(s).contains_key(s[i].0@),
        entries_map(s)[s[i].0@] == s[i].1@,
    decreases s.len(),
{
    if i < s.len() - 1 {
        lemma_entries_map_at(s.drop_last(), i);
    }
}

proof fn lemma_entries_map_absent(s: Seq<Entry>, k: Seq<u8>)
    requires
        forall|i: int| 0 <= i < s.len() ==> s[i].0@ != k,
    ensures
        !entries_map(s).contains_key(k),
    decreases s.len(),
{
    if s.len() > 0 {
        lemma_entries_map_absent(s.drop_last(), k);
    }
}

proof fn lemma_entries_map_update(s: Seq<Entry>, i: int, e: Entry)
    requires
        keys_unique(s),
        0 <= i < s.len(),
        s[i].0@ == e.0@,
    ensures
        entries_map(s.update(i, e)) == entries_map(s).insert(e.0@, e.1@),
    decreases s.len(),
{
    let t = s.update(i, e);
    if i == s.len() - 1 {
        assert(t.drop_last() =~= s.drop_last());
        assert(entries_map(t) =~= entries_map(s).insert(e.0@, e.1@));
    } else {
        assert(t.drop_last() =~= s.drop_last().update(i, e));
        lemma_entries_map_update(s.drop_last(), i, e);
        assert(s[i].0@ != s.last().0@);
        assert(entries_map(t) =~= entries_map(s).insert(e.0@, e.1@));
    }
}

/// Whether two byte strings are equal.
fn bytes_eq(a: &[u8], b: &[u8]) -> (r: bool)
    ensures
        r == (a@ == b@),
{
    if a.len() != b.len() {
        return false;
    }
    let mut i: usize = 0;
    while i < a.len()
        invariant
            a@.len() == b@.len(),
            0 <= i <= a@.len(),
            forall|j: int| 0 <= j < i ==> a@[j] == b@[j],
        decreases a@.len() - i,
    {
        if a[i] != b[i] {
            return false;
        }
        i = i + 1;
    }
    assert(a@ =~= b@);
    true
}

/// A fresh copy of a byte string.
fn copy_bytes(b: &Vec<u8>) -> (r: Vec<u8>)
    ensures
        r@ == b@,
{
    let r = b.clone();
    assert(r@ =~= b@);
    r
}

/// A store that keeps its bindings in one table with unique keys.
pub struct NaiveBTree {
    entries: Vec<Entry>,
}

impl NaiveBTree {
    #[verifier::type_invariant]
    spec fn wf(self) -> bool {
        keys_unique(self.entries@)
    }

    /// The index of the binding of `key`, if there is one.
    fn find(&self, key: &[u8]) -> (r: Option<usize>)
        ensures
            match r {
                Some(i) => i < self.entries@.len() && self.entries@[i as int].0@ == key@,
                None => forall|i: int| 0 <= i < self.entries@.len() ==> self.entries@[i].0@ != key@,
            },
    {
        let mut i: usize = 0;
        while i < self.entries.len()
            invariant
                0 <= i <= self.entries@.len(),
                forall|j: int| 0 <= j < i ==> self.entries@[j].0@ != key@,
            decreases self.entries@.len() - i,
        {
            if bytes_eq(self.entries[i].0.as_slice(), key) {
                return Some(i);
            }
            i = i + 1;
        }
        None
    }

    /// A copy of the whole table.
    fn copy_entries(&self) -> (r: Vec<Entry>)
        ensures
            r@.len() == self.entries@.len(),
            forall|i: int|
                0 <= i < r@.len() ==> #[trigger] r@[i].0@ == self.entries@[i].0@ && r@[i].1@
                    == self.entries@[i].1@,
            entries_map(r@) == entries_map(self.entries@),
            keys_unique(self.entries@) ==> keys_unique(r@),
    {
        let mut out: Vec<Entry> = Vec::new();
        let mut i: usize = 0;
        while i < self.entries.len()
            invariant
                0 <= i <= self.entries@.len(),
                out@.len() == i,
                forall|j: int|
                    0 <= j < i ==> #[trigger] out@[j].0@ == self.entries@[j].0@ && out@[j].1@
                        == self.entries@[j].1@,
            decreases self.entries@.len() - i,
        {
            let k = copy_bytes(&self.entries[i].0);
            let v = copy_bytes(&self.entries[i].1);
            out.push((k, v));
            i = i + 1;
        }
        proof {
            lemma_same_bindings(out@, self.entries@);
        }
        out
    }
}

proof fn lemma_same_bindings(a: Seq<Entry>, b: Seq<Entry>)
    requires
        a.len() == b.len(),
        forall|i: int| 0 <= i < a.len() ==> #[trigger] a[i].0@ == b[i].0@ && a[i].1@ == b[i].1@,
    ensures
        entries_map(a) == entries_map(b),
    decreases a.len(),
{
    if a.len() > 0 {
        lemma_same_bindings(a.drop_last(), b.drop_last());
    }
}

impl NaiveBTree {
    /// A table holding this one's bindings, overridden by every binding of
    /// `other`.
    pub(crate) fn absorb(&self, other: &NaiveBTree) -> (r: NaiveBTree)
        ensures
            r.contents() == self.contents().union_prefer_right(other.contents()),
    {
        proof {
            use_type_invariant(self);
            use_type_invariant(other);
        }
        let copied = self.copy_entries();
        let mut out = NaiveBTree { entries: copied };
        let mut i: usize = 0;
        while i < other.entries.len()
            invariant
                0 <= i <= other.entries@.len(),
                out.contents() == self.contents().union_prefer_right(
                    entries_map(other.entries@.take(i as int)),
                ),
            decreases other.entries@.len() - i,
        {
            let k = copy_bytes(&other.entries[i].0);
            let v = copy_bytes(&other.entries[i].1);
            let (next, _) = out.insert(k, v);
            proof {
                let t = other.entries@.take(i as int + 1);
                assert(t.drop_last() =~= other.entries@.take(i as int));
                assert(next.contents() =~= self.contents().union_prefer_right(entries_map(t)));
            }
            out = next;
            i = i + 1;
        }
        proof {
            assert(other.entries@.take(other.entries@.len() as int) =~= other.entries@);
        }
        out
    }
}

impl KVStore for NaiveBTree {
    closed spec fn contents(&self) -> Contents {
        entries_map(self.entries@)
    }

    /// This store never merges: every losing transaction is a conflict.
    open spec fn resolution(latest: Contents, attempted: Contents) -> Option<Contents> {
        None
    }

    fn default() -> (r: Self) {
        NaiveBTree { entries: Vec::new() }
    }

    fn get(&self, key: &[u8]) -> (r: Option<Vec<u8>>) {
        proof {
            use_type_invariant(self);
        }
        match self.find(key) {
            Some(i) => {
                proof {
                    lemma_entries_map_at(self.entries@, i as int);
                }
                Some(copy_bytes(&self.entries[i].1))
            },
            None => {
                proof {
                    lemma_entries_map_absent(self.entries@, key@);
                }
                None
            },
        }
    }

    fn insert(&self, key: Vec<u8>, val: Vec<u8>) -> (r: (Self, bool)) {
        proof {
            use_type_invariant(self);
        }
        let found = self.find(key.as_slice());
        let mut entries = self.copy_entries();
        let ghost kv = key@;
        let ghost vv = val@;
        match found {
            Some(i) => {
                proof {
                    lemma_entries_map_at(self.entries@, i as int);
                    assert(keys_unique(entries@));
                }
                let ghost before = entries@;
                entries.set(i, (key, val));
                proof {
                    lemma_entries_map_update(before, i as int, entries@[i as int]);
                }
                (NaiveBTree { entries }, true)
            },
            None => {
                proof {
                    lemma_entries_map_absent(self.entries@, key@);
                }
                let ghost before = entries@;
                entries.push((key, val));
                proof {
                    assert(entries@.drop_last() =~= before);
                }
                (NaiveBTree { entries }, false)
            },
        }
    }

    fn resolve(basis: Arc<Self>, prev: Arc<Self>) -> (r: Result<Arc<Self>, QuadrilleError>) {
        Err(QuadrilleError::KeyConflict)
    }
}

} // verus!
