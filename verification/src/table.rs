//! A small association table keyed by name bytes.
//!
//! Configuration data in the engine (weapon powers, submunition powers,
//! vehicle properties, warhead classifications) is keyed by the
//! human-readable names the host reports.  The table keeps one entry
//! per key, looked up by byte-for-byte comparison; its specification is
//! that of a finite map from byte strings to values.

use vstd::prelude::*;

use crate::names::bytes_eq;

verus! {

/// One table entry: a name and its value.
#[derive(Debug)]
pub struct TableEntry<V> {
    pub key: Vec<u8>,
    pub val: V,
}

/// Keys of the entry sequence are pairwise distinct.
pub open spec fn wf_seq<V>(s: Seq<TableEntry<V>>) -> bool {
    forall|i: int, j: int| 0 <= i < j < s.len() ==> s[i].key@ != s[j].key@
}

/// Whether the entry sequence holds an entry for `k`.
pub open spec fn has_seq<V>(s: Seq<TableEntry<V>>, k: Seq<u8>) -> bool {
    exists|i: int| 0 <= i < s.len() && s[i].key@ == k
}

/// The index of the entry for `k`, when there is one.
pub open spec fn idx_seq<V>(s: Seq<TableEntry<V>>, k: Seq<u8>) -> int {
    choose|i: int| 0 <= i < s.len() && s[i].key@ == k
}

/// The value stored for `k`, when there is one.
pub open spec fn get_seq<V>(s: Seq<TableEntry<V>>, k: Seq<u8>) -> Option<V> {
    if has_seq(s, k) {
        Some(s[idx_seq(s, k)].val)
    } else {
        None
    }
}

/// In a well-formed sequence, an entry whose key is `k` is the entry
/// the lookup finds.
pub proof fn lemma_get_unique<V>(s: Seq<TableEntry<V>>, k: Seq<u8>, i: int)
    requires
        wf_seq(s),
        0 <= i < s.len(),
        s[i].key@ == k,
    ensures
        has_seq(s, k),
        idx_seq(s, k) == i,
        get_seq(s, k) == Some(s[i].val),
{
    assert(has_seq(s, k));
    let w = idx_seq(s, k);
    assert(0 <= w < s.len() && s[w].key@ == k);
    if w < i {
        assert(s[w].key@ != s[i].key@);
    } else if i < w {
        assert(s[i].key@ != s[w].key@);
    }
}

/// Overwriting the value of the entry at `i` leaves every other key's
/// lookup unchanged.
pub proof fn lemma_frame_update<V>(a: Seq<TableEntry<V>>, b: Seq<TableEntry<V>>, i: int, e: TableEntry<V>)
    requires
        wf_seq(a),
        0 <= i < a.len(),
        e.key@ == a[i].key@,
        b == a.update(i, e),
    ensures
        wf_seq(b),
        get_seq(b, e.key@) == Some(e.val),
        forall|k: Seq<u8>| k != e.key@ ==> get_seq(b, k) == get_seq(a, k),
{
    assert(forall|x: int| 0 <= x < b.len() ==> b[x].key@ == a[x].key@);
    lemma_get_unique(b, e.key@, i);
    assert forall|k: Seq<u8>| k != e.key@ implies get_seq(b, k) == get_seq(a, k) by {
        if has_seq(a, k) {
            let w = idx_seq(a, k);
            assert(0 <= w < a.len() && a[w].key@ == k);
            lemma_get_unique(a, k, w);
            assert(w != i);
            lemma_get_unique(b, k, w);
        } else {
            if has_seq(b, k) {
                let w = idx_seq(b, k);
                assert(a[w].key@ == k);
            }
        }
    }
}

/// Appending an entry for a fresh key leaves every other key's lookup
/// unchanged.
pub proof fn lemma_frame_push<V>(a: Seq<TableEntry<V>>, b: Seq<TableEntry<V>>, e: TableEntry<V>)
    requires
        wf_seq(a),
        !has_seq(a, e.key@),
        b == a.push(e),
    ensures
        wf_seq(b),
        get_seq(b, e.key@) == Some(e.val),
        forall|k: Seq<u8>| k != e.key@ ==> get_seq(b, k) == get_seq(a, k),
{
    assert(forall|x: int| 0 <= x < a.len() ==> b[x] == a[x]);
    assert(b[a.len() as int] == e);
    assert(wf_seq(b)) by {
        assert forall|i: int, j: int| 0 <= i < j < b.len() implies b[i].key@ != b[j].key@ by {
            if j < a.len() {
                assert(a[i].key@ != a[j].key@);
            } else {
                assert(b[j] == e);
                assert(a[i].key@ != e.key@);
            }
        }
    }
    lemma_get_unique(b, e.key@, a.len() as int);
    assert forall|k: Seq<u8>| k != e.key@ implies get_seq(b, k) == get_seq(a, k) by {
        if has_seq(a, k) {
            let w = idx_seq(a, k);
            lemma_get_unique(a, k, w);
            lemma_get_unique(b, k, w);
        } else {
            if has_seq(b, k) {
                let w = idx_seq(b, k);
                assert(0 <= w < b.len() && b[w].key@ == k);
                assert(w == a.len() as int);
            }
        }
    }
}

/// Removing the entry at `i` removes exactly its key from the lookup.
pub proof fn lemma_frame_remove<V>(a: Seq<TableEntry<V>>, b: Seq<TableEntry<V>>, i: int)
    requires
        wf_seq(a),
        0 <= i < a.len(),
        b == a.remove(i),
    ensures
        wf_seq(b),
        get_seq(b, a[i].key@) == None::<V>,
        forall|k: Seq<u8>| k != a[i].key@ ==> get_seq(b, k) == get_seq(a, k),
{
    assert(forall|x: int| 0 <= x < i ==> b[x] == a[x]);
    assert(forall|x: int| i <= x < b.len() ==> b[x] == a[x + 1]);
    assert(wf_seq(b)) by {
        assert forall|x: int, y: int| 0 <= x < y < b.len() implies b[x].key@ != b[y].key@ by {
            let xa: int = if x < i { x } else { x + 1 };
            let ya: int = if y < i { y } else { y + 1 };
            assert(a[xa].key@ != a[ya].key@);
        }
    }
    assert(get_seq(b, a[i].key@) == None::<V>) by {
        if has_seq(b, a[i].key@) {
            let w = idx_seq(b, a[i].key@);
            assert(0 <= w < b.len() && b[w].key@ == a[i].key@);
            let wa: int = if w < i { w } else { w + 1 };
            assert(a[wa].key@ == a[i].key@);
            if wa < i {
                assert(a[wa].key@ != a[i].key@);
            } else {
                assert(a[i].key@ != a[wa].key@);
            }
        }
    }
    assert forall|k: Seq<u8>| k != a[i].key@ implies get_seq(b, k) == get_seq(a, k) by {
        if has_seq(a, k) {
            let w = idx_seq(a, k);
            lemma_get_unique(a, k, w);
            assert(w != i);
            let wb: int = if w < i { w } else { w - 1 };
            assert(b[wb].key@ == k);
            lemma_get_unique(b, k, wb);
        } else {
            if has_seq(b, k) {
                let w = idx_seq(b, k);
                let wa: int = if w < i { w } else { w + 1 };
                assert(a[wa].key@ == k);
            }
        }
    }
}

/// An association table with at most one entry per key.
#[derive(Debug)]
pub struct KeyedTable<V> {
    pub entries: Vec<TableEntry<V>>,
}

impl<V: Copy> KeyedTable<V> {
    /// Keys are pairwise distinct.
    pub open spec fn wf(self) -> bool {
        wf_seq(self.entries@)
    }

    /// Whether the table holds an entry for `k`.
    pub open spec fn spec_has(self, k: Seq<u8>) -> bool {
        has_seq(self.entries@, k)
    }

    /// The value stored for `k`, when there is one.
    pub open spec fn spec_get(self, k: Seq<u8>) -> Option<V> {
        get_seq(self.entries@, k)
    }

    /// The empty table.
    pub fn new() -> (r: Self)
        ensures
            r.wf(),
            forall|k: Seq<u8>| !r.spec_has(k),
            r.entries@.len() == 0,
    {
        KeyedTable { entries: Vec::new() }
    }

    /// The number of entries.
    pub fn len(&self) -> (r: usize)
        ensures
            r == self.entries@.len(),
    {
        self.entries.len()
    }

    /// The index of the entry for `key`, when there is one.
    fn find(&self, key: &[u8]) -> (r: Option<usize>)
        ensures
            match r {
                Some(i) => i < self.entries@.len() && self.entries@[i as int].key@ == key@,
                None => !self.spec_has(key@),
            },
    {
        let mut i: usize = 0;
        while i < self.entries.len()
            invariant
                i <= self.entries@.len(),
                forall|j: int| 0 <= j < i ==> self.entries@[j].key@ != key@,
            decreases self.entries@.len() - i,
    {
            if bytes_eq(self.entries[i].key.as_slice(), key) {
                return Some(i);
            }
            i = i + 1;
        }
        None
    }

    /// Whether the table holds an entry for `key`.
    pub fn has(&self, key: &[u8]) -> (r: bool)
        requires
            self.wf(),
        ensures
            r == self.spec_has(key@),
    {
        match self.find(key) {
            Some(i) => {
                proof {
                    assert(has_seq(self.entries@, key@));
                }
                true
            },
            None => false,
        }
    }

    /// The value stored for `key`, when there is one.
    pub fn get(&self, key: &[u8]) -> (r: Option<V>)
        requires
            self.wf(),
        ensures
            r == self.spec_get(key@),
    {
        match self.find(key) {
            Some(i) => {
                proof {
                    lemma_get_unique(self.entries@, key@, i as int);
                }
                Some(self.entries[i].val)
            },
            None => None,
        }
    }

    /// Store `val` for `key`, replacing any earlier entry.
    pub fn set(&mut self, key: &[u8], val: V)
        requires
            old(self).wf(),
        ensures
            final(self).wf(),
            final(self).spec_get(key@) == Some(val),
            forall|k: Seq<u8>| k != key@ ==> final(self).spec_get(k) == old(self).spec_get(k),
            final(self).entries@.len() == old(self).entries@.len() + if old(self).spec_has(key@) {
                0int
            } else {
                1int
            },
    {
        let mut kv: Vec<u8> = Vec::new();
        kv.extend_from_slice(key);
        proof {
            assert(kv@ =~= key@);
        }
        match self.find(key) {
            Some(i) => {
                let ghost prev = self.entries@;
                let e = TableEntry { key: kv, val };
                self.entries[i] = e;
                proof {
                    assert(has_seq(prev, key@));
                    lemma_frame_update(prev, self.entries@, i as int, e);
                }
            },
            None => {
                let ghost prev = self.entries@;
                let e = TableEntry { key: kv, val };
                self.entries.push(e);
                proof {
                    lemma_frame_push(prev, self.entries@, e);
                }
            },
        }
    }

    /// Remove the entry for `key`, if there is one.
    pub fn unset(&mut self, key: &[u8])
        requires
            old(self).wf(),
        ensures
            final(self).wf(),
            final(self).spec_get(key@) == None::<V>,
            forall|k: Seq<u8>| k != key@ ==> final(self).spec_get(k) == old(self).spec_get(k),
    {
        match self.find(key) {
            Some(i) => {
                let ghost prev = self.entries@;
                self.entries.remove(i);
                proof {
                    lemma_get_unique(prev, key@, i as int);
                    lemma_frame_remove(prev, self.entries@, i as int);
                }
            },
            None => {},
        }
    }
}

} // verus!
