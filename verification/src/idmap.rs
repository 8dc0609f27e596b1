//! A small association map keyed by host object ids.
//!
//! Tracked weapons, pending effects, processed-unit records and
//! movement trackers are each keyed by the host's runtime object id.
//! The map keeps one entry per id, in insertion order; its
//! specification is that of a finite map from ids to values.

use vstd::prelude::*;

verus! {

/// Ids of the entry sequence are pairwise distinct.
pub open spec fn wf_ids<V>(s: Seq<(u64, V)>) -> bool {
    forall|i: int, j: int| 0 <= i < j < s.len() ==> s[i].0 != s[j].0
}

/// Whether the entry sequence holds an entry for `id`.
pub open spec fn has_id<V>(s: Seq<(u64, V)>, id: u64) -> bool {
    exists|i: int| 0 <= i < s.len() && s[i].0 == id
}

/// The index of the entry for `id`, when there is one.
pub open spec fn idx_id<V>(s: Seq<(u64, V)>, id: u64) -> int {
    choose|i: int| 0 <= i < s.len() && s[i].0 == id
}

/// The value stored for `id`, when there is one.
pub open spec fn get_id<V>(s: Seq<(u64, V)>, id: u64) -> Option<V> {
    if has_id(s, id) {
        Some(s[idx_id(s, id)].1)
    } else {
        None
    }
}

/// In a well-formed sequence, an entry whose id is `id` is the entry
/// the lookup finds.
pub proof fn lemma_id_unique<V>(s: Seq<(u64, V)>, id: u64, i: int)
    requires
        wf_ids(s),
        0 <= i < s.len(),
        s[i].0 == id,
    ensures
        has_id(s, id),
        idx_id(s, id) == i,
        get_id(s, id) == Some(s[i].1),
{
    assert(has_id(s, id));
    let w = idx_id(s, id);
    assert(0 <= w < s.len() && s[w].0 == id);
    if w < i {
        assert(s[w].0 != s[i].0);
    } else if i < w {
        assert(s[i].0 != s[w].0);
    }
}

/// Overwriting the value of the entry at `i` leaves every other id's
/// lookup unchanged.
pub proof fn lemma_id_frame_update<V>(a: Seq<(u64, V)>, b: Seq<(u64, V)>, i: int, e: (u64, V))
    requires
        wf_ids(a),
        0 <= i < a.len(),
        e.0 == a[i].0,
        b == a.update(i, e),
    ensures
        wf_ids(b),
        get_id(b, e.0) == Some(e.1),
        forall|k: u64| k != e.0 ==> get_id(b, k) == get_id(a, k),
{
    assert(forall|x: int| 0 <= x < b.len() ==> b[x].0 == a[x].0);
    lemma_id_unique(b, e.0, i);
    assert forall|k: u64| k != e.0 implies get_id(b, k) == get_id(a, k) by {
        if has_id(a, k) {
            let w = idx_id(a, k);
            lemma_id_unique(a, k, w);
            assert(w != i);
            lemma_id_unique(b, k, w);
        } else {
            if has_id(b, k) {
                let w = idx_id(b, k);
                assert(a[w].0 == k);
            }
        }
    }
}

/// Appending an entry for a fresh id leaves every other id's lookup
/// unchanged.
pub proof fn lemma_id_frame_push<V>(a: Seq<(u64, V)>, b: Seq<(u64, V)>, e: (u64, V))
    requires
        wf_ids(a),
        !has_id(a, e.0),
        b == a.push(e),
    ensures
        wf_ids(b),
        get_id(b, e.0) == Some(e.1),
        forall|k: u64| k != e.0 ==> get_id(b, k) == get_id(a, k),
{
    assert(forall|x: int| 0 <= x < a.len() ==> b[x] == a[x]);
    assert(b[a.len() as int] == e);
    assert(wf_ids(b)) by {
        assert forall|i: int, j: int| 0 <= i < j < b.len() implies b[i].0 != b[j].0 by {
            if j < a.len() {
                assert(a[i].0 != a[j].0);
            } else {
                assert(b[j] == e);
                assert(a[i].0 != e.0);
            }
        }
    }
    lemma_id_unique(b, e.0, a.len() as int);
    assert forall|k: u64| k != e.0 implies get_id(b, k) == get_id(a, k) by {
        if has_id(a, k) {
            let w = idx_id(a, k);
            lemma_id_unique(a, k, w);
            lemma_id_unique(b, k, w);
        } else {
            if has_id(b, k) {
                let w = idx_id(b, k);
                assert(0 <= w < b.len() && b[w].0 == k);
                assert(w == a.len() as int);
            }
        }
    }
}

/// Removing the entry at `i` removes exactly its id from the lookup.
pub proof fn lemma_id_frame_remove<V>(a: Seq<(u64, V)>, b: Seq<(u64, V)>, i: int)
    requires
        wf_ids(a),
        0 <= i < a.len(),
        b == a.remove(i),
    ensures
        wf_ids(b),
        get_id(b, a[i].0) == None::<V>,
        forall|k: u64| k != a[i].0 ==> get_id(b, k) == get_id(a, k),
{
    assert(forall|x: int| 0 <= x < i ==> b[x] == a[x]);
    assert(forall|x: int| i <= x < b.len() ==> b[x] == a[x + 1]);
    assert(wf_ids(b)) by {
        assert forall|x: int, y: int| 0 <= x < y < b.len() implies b[x].0 != b[y].0 by {
            let xa: int = if x < i { x } else { x + 1 };
            let ya: int = if y < i { y } else { y + 1 };
            assert(a[xa].0 != a[ya].0);
        }
    }
    assert(get_id(b, a[i].0) == None::<V>) by {
        if has_id(b, a[i].0) {
            let w = idx_id(b, a[i].0);
            assert(0 <= w < b.len() && b[w].0 == a[i].0);
            let wa: int = if w < i { w } else { w + 1 };
            assert(a[wa].0 == a[i].0);
            if wa < i {
                assert(a[wa].0 != a[i].0);
            } else {
                assert(a[i].0 != a[wa].0);
            }
        }
    }
    assert forall|k: u64| k != a[i].0 implies get_id(b, k) == get_id(a, k) by {
        if has_id(a, k) {
            let w = idx_id(a, k);
            lemma_id_unique(a, k, w);
            assert(w != i);
            let wb: int = if w < i { w } else { w - 1 };
            assert(b[wb].0 == k);
            lemma_id_unique(b, k, wb);
        } else {
            if has_id(b, k) {
                let w = idx_id(b, k);
                let wa: int = if w < i { w } else { w + 1 };
                assert(a[wa].0 == k);
            }
        }
    }
}

/// An association map with at most one entry per id, in insertion order.
#[derive(Debug)]
pub struct IdMap<V> {
    pub entries: Vec<(u64, V)>,
}

impl<V> IdMap<V> {
    /// Ids are pairwise distinct.
    pub open spec fn wf(self) -> bool {
        wf_ids(self.entries@)
    }

    /// Whether the map holds an entry for `id`.
    pub open spec fn spec_has(self, id: u64) -> bool {
        has_id(self.entries@, id)
    }

    /// The value stored for `id`, when there is one.
    pub open spec fn spec_get(self, id: u64) -> Option<V> {
        get_id(self.entries@, id)
    }

    /// The empty map.
    pub fn new() -> (r: Self)
        ensures
            r.wf(),
            forall|k: u64| !r.spec_has(k),
            r.entries@.len() == 0,
    {
        IdMap { entries: Vec::new() }
    }

    /// The number of entries.
    pub fn len(&self) -> (r: usize)
        ensures
            r == self.entries@.len(),
    {
        self.entries.len()
    }

    /// The index of the entry for `id`, when there is one.
    pub fn find(&self, id: u64) -> (r: Option<usize>)
        ensures
            match r {
                Some(i) => i < self.entries@.len() && self.entries@[i as int].0 == id,
                None => !self.spec_has(id),
            },
    {
        let mut i: usize = 0;
        while i < self.entries.len()
            invariant
                i <= self.entries@.len(),
                forall|j: int| 0 <= j < i ==> self.entries@[j].0 != id,
            decreases self.entries@.len() - i,
        {
            if self.entries[i].0 == id {
                return Some(i);
            }
            i = i + 1;
        }
        None
    }

    /// Whether the map holds an entry for `id`.
    pub fn has(&self, id: u64) -> (r: bool)
        ensures
            r == self.spec_has(id),
    {
        match self.find(id) {
            Some(_) => {
                proof {
                    assert(has_id(self.entries@, id));
                }
                true
            },
            None => false,
        }
    }

    /// Store `val` for `id`, replacing any earlier entry.
    pub fn set(&mut self, id: u64, val: V)
        requires
            old(self).wf(),
        ensures
            final(self).wf(),
            final(self).spec_get(id) == Some(val),
            forall|k: u64| k != id ==> final(self).spec_get(k) == old(self).spec_get(k),
    {
        match self.find(id) {
            Some(i) => {
                let ghost prev = self.entries@;
                self.entries[i] = (id, val);
                proof {
                    lemma_id_frame_update(prev, self.entries@, i as int, self.entries@[i as int]);
                }
            },
            None => {
                let ghost prev = self.entries@;
                self.entries.push((id, val));
                proof {
                    lemma_id_frame_push(
                        prev,
                        self.entries@,
                        self.entries@[self.entries@.len() - 1],
                    );
                }
            },
        }
    }

    /// Remove and return the entry for `id`, if there is one.
    pub fn take(&mut self, id: u64) -> (r: Option<V>)
        requires
            old(self).wf(),
        ensures
            final(self).wf(),
            match r {
                Some(v) => old(self).spec_get(id) == Some(v) && final(self).spec_get(id)
                    == None::<V>,
                None => !old(self).spec_has(id) && *final(self) == *old(self),
            },
            forall|k: u64| k != id ==> final(self).spec_get(k) == old(self).spec_get(k),
    {
        match self.find(id) {
            Some(i) => {
                let ghost prev = self.entries@;
                let e = self.entries.remove(i);
                proof {
                    lemma_id_unique(prev, id, i as int);
                    lemma_id_frame_remove(prev, self.entries@, i as int);
                }
                Some(e.1)
            },
            None => None,
        }
    }

    /// Remove every entry.
    pub fn clear(&mut self)
        ensures
            final(self).wf(),
            final(self).entries@.len() == 0,
            forall|k: u64| !final(self).spec_has(k),
    {
        self.entries.clear();
    }

    /// Remove the entry for `id`, if there is one.
    pub fn unset(&mut self, id: u64)
        requires
            old(self).wf(),
        ensures
            final(self).wf(),
            final(self).spec_get(id) == None::<V>,
            forall|k: u64| k != id ==> final(self).spec_get(k) == old(self).spec_get(k),
    {
        match self.find(id) {
            Some(i) => {
                let ghost prev = self.entries@;
                self.entries.remove(i);
                proof {
                    lemma_id_unique(prev, id, i as int);
                    lemma_id_frame_remove(prev, self.entries@, i as int);
                }
            },
            None => {},
        }
    }
}

} // verus!
