//! A small verified associative map keyed by byte strings.
//!
//! Storage keys, asset identifiers and owner hashes are all byte strings, so
//! one map type serves for every keyed collection this predicate builds or
//! reads: lookup, insert and removal are plain linear scans over a pair of
//! vectors, specified against a mathematical `Map` view.

use vstd::prelude::*;
use vstd::pervasive::VecAdditionalExecFns;
use crate::bytes::bytes_eq;

verus! {

pub struct KvMap<V> {
    keys: Vec<Vec<u8>>,
    vals: Vec<V>,
}

impl<V> KvMap<V> {
    /// The keys, as mathematical byte strings, in insertion order.
    pub closed spec fn key_seq(self) -> Seq<Seq<u8>> {
        self.keys@.map_values(|k: Vec<u8>| k@)
    }

    /// The values, in insertion order.
    pub closed spec fn val_seq(self) -> Seq<V> {
        self.vals@
    }

    /// Well-formed: one value per key, no key twice.
    pub open spec fn wf(self) -> bool {
        &&& self.key_seq().len() == self.val_seq().len()
        &&& forall|i: int, j: int|
            0 <= i < j < self.key_seq().len() ==> self.key_seq()[i] != self.key_seq()[j]
    }

    pub open spec fn spec_len(self) -> nat {
        self.key_seq().len()
    }

    pub open spec fn contains_key(self, k: Seq<u8>) -> bool {
        exists|i: int| 0 <= i < self.key_seq().len() && self.key_seq()[i] == k
    }

    pub open spec fn index_of(self, k: Seq<u8>) -> int {
        choose|i: int| 0 <= i < self.key_seq().len() && self.key_seq()[i] == k
    }

    /// The contents as a mathematical map.
    pub open spec fn as_map(self) -> Map<Seq<u8>, V> {
        Map::new(|k: Seq<u8>| self.contains_key(k), |k: Seq<u8>| self.val_seq()[self.index_of(k)])
    }

    /// A key is in the map's domain exactly when some index holds it.
    pub proof fn lemma_dom(self)
        ensures
            forall|q: Seq<u8>| #[trigger] self.as_map().dom().contains(q) == self.contains_key(q),
    {
    }

    /// In a well-formed map, a key found at index `i` is mapped to the value
    /// at index `i`.
    pub proof fn lemma_entry_at(self, i: int)
        requires
            self.wf(),
            0 <= i < self.spec_len(),
        ensures
            self.contains_key(self.key_seq()[i]),
            self.index_of(self.key_seq()[i]) == i,
            self.as_map()[self.key_seq()[i]] == self.val_seq()[i],
    {
        let k = self.key_seq()[i];
        assert(self.contains_key(k));
        let j = self.index_of(k);
        assert(0 <= j < self.key_seq().len() && self.key_seq()[j] == k);
        if i < j {
            assert(self.key_seq()[i] != self.key_seq()[j]);
        } else if j < i {
            assert(self.key_seq()[j] != self.key_seq()[i]);
        }
    }

    pub fn new() -> (r: Self)
        ensures
            r.wf(),
            r.spec_len() == 0,
            r.as_map() == Map::<Seq<u8>, V>::empty(),
    {
        let r = KvMap { keys: Vec::new(), vals: Vec::new() };
        proof {
            assert(r.as_map() =~= Map::<Seq<u8>, V>::empty());
        }
        r
    }

    pub fn len(&self) -> (n: usize)
        ensures
            n == self.spec_len(),
    {
        self.keys.len()
    }

    /// The index holding key `k`, if any.
    fn find(&self, k: &Vec<u8>) -> (r: Option<usize>)
        ensures
            match r {
                Some(i) => i < self.spec_len() && self.key_seq()[i as int] == k@,
                None => !self.contains_key(k@),
            },
    {
        let mut i: usize = 0;
        while i < self.keys.len()
            invariant
                i <= self.keys.len(),
                forall|j: int| 0 <= j < i ==> self.key_seq()[j] != k@,
            decreases self.keys.len() - i,
        {
            if bytes_eq(&self.keys[i], k) {
                return Some(i);
            }
            i += 1;
        }
        None
    }

    /// The value at key `k`, if any.
    pub fn get(&self, k: &Vec<u8>) -> (r: Option<&V>)
        requires
            self.wf(),
        ensures
            match r {
                Some(v) => self.contains_key(k@) && *v == self.as_map()[k@],
                None => !self.contains_key(k@),
            },
    {
        match self.find(k) {
            Some(i) => {
                proof {
                    self.lemma_entry_at(i as int);
                }
                Some(&self.vals[i])
            },
            None => None,
        }
    }

    /// Whether key `k` is present.
    pub fn contains(&self, k: &Vec<u8>) -> (r: bool)
        requires
            self.wf(),
        ensures
            r == self.contains_key(k@),
    {
        match self.find(k) {
            Some(i) => {
                proof {
                    self.lemma_entry_at(i as int);
                }
                true
            },
            None => false,
        }
    }

    /// Binds `k` to `v`, replacing any previous binding.
    pub fn insert(&mut self, k: Vec<u8>, v: V)
        requires
            old(self).wf(),
        ensures
            final(self).wf(),
            final(self).as_map() == old(self).as_map().insert(k@, v),
            forall|q: Seq<u8>| #[trigger] final(self).contains_key(q)
                == (old(self).contains_key(q) || q == k@),
            final(self).spec_len() == old(self).spec_len()
                + if old(self).contains_key(k@) { 0int } else { 1int },
    {
        let ghost old_self = *self;
        match self.find(&k) {
            Some(i) => {
                self.vals.set(i, v);
                proof {
                    assert(self.key_seq() =~= old_self.key_seq());
                    assert forall|q: Seq<u8>| old_self.contains_key(q) == self.contains_key(q) by {}
                    assert(old_self.contains_key(k@));
                    assert forall|q: Seq<u8>| #[trigger] self.contains_key(q)
                        implies self.as_map()[q] == old_self.as_map().insert(k@, v)[q] by {
                        let j = self.index_of(q);
                        assert(0 <= j < self.key_seq().len() && self.key_seq()[j] == q);
                        old_self.lemma_entry_at(j);
                        self.lemma_entry_at(j);
                        if q == k@ {
                            assert(j == i) by {
                                old_self.lemma_entry_at(i as int);
                            }
                        }
                    }
                    assert(self.as_map() =~= old_self.as_map().insert(k@, v));
                }
            },
            None => {
                proof {
                    assert(old_self.key_seq().map_values(|q: Seq<u8>| q)
                        == old_self.key_seq());
                }
                self.keys.push(k);
                self.vals.push(v);
                proof {
                    assert(self.key_seq() =~= old_self.key_seq().push(k@));
                    assert(self.val_seq() =~= old_self.val_seq().push(v));
                    assert(self.wf());
                    assert forall|q: Seq<u8>| #[trigger] self.contains_key(q)
                        implies self.as_map()[q] == old_self.as_map().insert(k@, v)[q] by {
                        let j = self.index_of(q);
                        assert(0 <= j < self.key_seq().len() && self.key_seq()[j] == q);
                        self.lemma_entry_at(j);
                        if j < old_self.key_seq().len() {
                            old_self.lemma_entry_at(j);
                            assert(q != k@);
                        } else {
                            assert(q == k@);
                        }
                    }
                    assert forall|q: Seq<u8>| old_self.as_map().insert(k@, v).dom().contains(q)
                        implies self.contains_key(q) by {
                        if q == k@ {
                            assert(self.key_seq()[old_self.key_seq().len() as int] == q);
                        } else {
                            let j = old_self.index_of(q);
                            assert(0 <= j < old_self.key_seq().len()
                                && old_self.key_seq()[j] == q);
                            assert(self.key_seq()[j] == q);
                        }
                    }
                    assert(self.as_map() =~= old_self.as_map().insert(k@, v));
                    assert forall|q: Seq<u8>| #[trigger] self.contains_key(q)
                        == (old_self.contains_key(q) || q == k@) by {
                        if self.contains_key(q) {
                            let j = choose|j: int|
                                0 <= j < self.key_seq().len() && self.key_seq()[j] == q;
                            if j < old_self.key_seq().len() {
                                assert(old_self.key_seq()[j] == q);
                                assert(old_self.contains_key(q));
                            } else {
                                assert(q == k@);
                            }
                        }
                        if old_self.contains_key(q) {
                            let j = choose|j: int|
                                0 <= j < old_self.key_seq().len()
                                    && old_self.key_seq()[j] == q;
                            assert(self.key_seq()[j] == q);
                            assert(self.contains_key(q));
                        }
                        if q == k@ {
                            assert(self.key_seq()[old_self.key_seq().len() as int] == q);
                            assert(self.contains_key(q));
                        }
                    }
                }
            },
        }
    }

    /// Removes the binding of `k`, returning its value if it was present.
    pub fn remove(&mut self, k: &Vec<u8>) -> (r: Option<V>)
        requires
            old(self).wf(),
        ensures
            final(self).wf(),
            final(self).as_map() == old(self).as_map().remove(k@),
            forall|q: Seq<u8>| #[trigger] final(self).contains_key(q)
                == (old(self).contains_key(q) && q != k@),
            match r {
                Some(v) => old(self).contains_key(k@) && v == old(self).as_map()[k@],
                None => !old(self).contains_key(k@),
            },
    {
        let ghost old_self = *self;
        match self.find(k) {
            Some(i) => {
                let key = self.keys.remove(i);
                let v = self.vals.remove(i);
                proof {
                    old_self.lemma_entry_at(i as int);
                    assert(self.key_seq()
                        =~= old_self.key_seq().subrange(0, i as int)
                            + old_self.key_seq().subrange(i + 1, old_self.spec_len() as int));
                    assert forall|a: int, b: int|
                        0 <= a < b < self.key_seq().len()
                        implies self.key_seq()[a] != self.key_seq()[b] by {
                        let n = old_self.key_seq().len() as int;
                        let a0 = if a < i { a } else { a + 1 };
                        let b0 = if b < i { b } else { b + 1 };
                        assert(self.key_seq()[a] == old_self.key_seq()[a0]);
                        assert(self.key_seq()[b] == old_self.key_seq()[b0]);
                    }
                    assert forall|q: Seq<u8>| #[trigger] self.contains_key(q)
                        implies old_self.contains_key(q) && q != k@
                            && self.as_map()[q] == old_self.as_map()[q] by {
                        let j = self.index_of(q);
                        assert(0 <= j < self.key_seq().len() && self.key_seq()[j] == q);
                        self.lemma_entry_at(j);
                        let j0 = if j < i { j } else { j + 1 };
                        assert(old_self.key_seq()[j0] == q);
                        old_self.lemma_entry_at(j0);
                        assert(q != k@) by {
                            if j0 < i {
                                assert(old_self.key_seq()[j0] != old_self.key_seq()[i as int]);
                            } else {
                                assert(old_self.key_seq()[i as int] != old_self.key_seq()[j0]);
                            }
                        }
                        assert(self.val_seq()[j] == old_self.val_seq()[j0]);
                    }
                    assert forall|q: Seq<u8>| old_self.contains_key(q) && q != k@
                        implies self.contains_key(q) by {
                        let j0 = old_self.index_of(q);
                        assert(0 <= j0 < old_self.key_seq().len()
                            && old_self.key_seq()[j0] == q);
                        old_self.lemma_entry_at(j0);
                        assert(j0 != i);
                        let j = if j0 < i { j0 } else { j0 - 1 };
                        assert(self.key_seq()[j] == q);
                    }
                    assert(self.as_map() =~= old_self.as_map().remove(k@));
                    assert forall|q: Seq<u8>| #[trigger] self.contains_key(q)
                        == (old_self.contains_key(q) && q != k@) by {}
                }
                Some(v)
            },
            None => {
                proof {
                    assert(self.as_map() =~= old_self.as_map().remove(k@));
                    assert forall|q: Seq<u8>| #[trigger] self.contains_key(q)
                        == (old_self.contains_key(q) && q != k@) by {
                        if self.contains_key(q) && q == k@ {
                            assert(old_self.contains_key(k@));
                        }
                    }
                }
                None
            },
        }
    }

    /// The key at position `i`, for walking the entries.
    pub fn key_at(&self, i: usize) -> (k: &Vec<u8>)
        requires
            self.wf(),
            i < self.spec_len(),
        ensures
            k@ == self.key_seq()[i as int],
            self.contains_key(k@),
            self.as_map()[k@] == self.val_seq()[i as int],
    {
        proof {
            self.lemma_entry_at(i as int);
        }
        &self.keys[i]
    }

    /// The value at position `i`, for walking the entries.
    pub fn val_at(&self, i: usize) -> (v: &V)
        requires
            self.wf(),
            i < self.spec_len(),
        ensures
            *v == self.val_seq()[i as int],
            *v == self.as_map()[self.key_seq()[i as int]],
    {
        proof {
            self.lemma_entry_at(i as int);
        }
        &self.vals[i]
    }
}

} // verus!
