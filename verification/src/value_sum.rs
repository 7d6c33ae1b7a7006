//! The transparent transaction value pool: a signed quantity per
//! pseudo-asset.
//!
//! The pool starts from the shielded value balance a transaction declares,
//! takes a credit for every transparent input and a debit for every
//! transparent output, and must end exactly zero. Entries that reach zero
//! are dropped, so the pool is zero exactly when it is empty.

use vstd::prelude::*;
use crate::bytes::copy_bytes;
use crate::kv::KvMap;
use crate::types::AssetType;

verus! {

/// Where a pool stands relative to zero: empty, all entries positive, all
/// entries negative, or some of each (incomparable with zero).
#[derive(Clone, Copy, PartialEq, Eq, Structural, Debug)]
pub enum PoolSign {
    Zero,
    Positive,
    Negative,
    Mixed,
}

/// Adding `d` to the entry of `k`: fails on `i128` overflow, drops the entry
/// when it lands on zero.
pub open spec fn pool_add(m: Map<Seq<u8>, i128>, k: Seq<u8>, d: int) -> Option<
    Map<Seq<u8>, i128>,
> {
    let cur: int = if m.dom().contains(k) {
        m[k] as int
    } else {
        0
    };
    let s = cur + d;
    if s > i128::MAX || s < i128::MIN {
        None
    } else if s == 0 {
        Some(m.remove(k))
    } else {
        Some(m.insert(k, s as i128))
    }
}

/// The sign of a pool with no zero entries.
pub open spec fn pool_sign(m: Map<Seq<u8>, i128>) -> PoolSign {
    if m =~= Map::<Seq<u8>, i128>::empty() {
        PoolSign::Zero
    } else if forall|k: Seq<u8>| #[trigger] m.dom().contains(k) ==> m[k] > 0 {
        PoolSign::Positive
    } else if forall|k: Seq<u8>| #[trigger] m.dom().contains(k) ==> m[k] < 0 {
        PoolSign::Negative
    } else {
        PoolSign::Mixed
    }
}

/// A signed per-asset value sum with overflow-checked updates and no zero
/// entries.
pub struct ValueSum {
    m: KvMap<i128>,
}

impl ValueSum {
    /// The pool as a mathematical map from asset identifier to signed value.
    pub closed spec fn as_map(self) -> Map<Seq<u8>, i128> {
        self.m.as_map()
    }

    /// Well-formed: a valid map holding no zero entry.
    pub closed spec fn wf(self) -> bool {
        &&& self.m.wf()
        &&& forall|k: Seq<u8>| #[trigger] self.m.contains_key(k) ==> self.m.as_map()[k] != 0
    }

    pub fn new() -> (r: ValueSum)
        ensures
            r.wf(),
            r.as_map() == Map::<Seq<u8>, i128>::empty(),
    {
        ValueSum { m: KvMap::new() }
    }

    /// A fresh pool with the same contents.
    pub fn duplicate(&self) -> (r: ValueSum)
        requires
            self.wf(),
        ensures
            r.wf(),
            r.as_map() == self.as_map(),
    {
        let mut m: KvMap<i128> = KvMap::new();
        let n = self.m.len();
        let mut i: usize = 0;
        while i < n
            invariant
                i <= n,
                n == self.m.spec_len(),
                self.wf(),
                m.wf(),
                forall|k: Seq<u8>| #[trigger] m.contains_key(k) ==> self.m.contains_key(k),
                forall|k: Seq<u8>| #[trigger] m.contains_key(k)
                    ==> m.as_map()[k] == self.m.as_map()[k],
                forall|j: int| 0 <= j < i ==> m.contains_key(self.m.key_seq()[j]),
            decreases n - i,
        {
            let ghost m0 = m;
            let k = self.m.key_at(i);
            let v = *self.m.val_at(i);
            m.insert(copy_bytes(k), v);
            proof {
                assert(self.m.contains_key(k@));
                assert(m.as_map() == m0.as_map().insert(k@, v));
                assert forall|q: Seq<u8>| #[trigger] m.contains_key(q)
                    implies self.m.contains_key(q) && m.as_map()[q] == self.m.as_map()[q] by {
                    if q == k@ {
                        assert(m.as_map()[q] == v);
                    } else {
                        assert(m0.contains_key(q));
                        assert(m.as_map()[q] == m0.as_map()[q]);
                    }
                }
            }
            i += 1;
        }
        proof {
            assert forall|k: Seq<u8>| self.m.contains_key(k) implies m.contains_key(k) by {
                let j = choose|j: int|
                    0 <= j < self.m.key_seq().len() && self.m.key_seq()[j] == k;
                assert(m.contains_key(self.m.key_seq()[j]));
            }
            assert(m.as_map() =~= self.m.as_map());
        }
        ValueSum { m }
    }

    /// Adds `d` to the entry of `asset`; on overflow reports failure and
    /// leaves the pool unchanged.
    fn add_signed(&mut self, asset: &AssetType, d: i128) -> (ok: bool)
        requires
            old(self).wf(),
        ensures
            ok == (pool_add(old(self).as_map(), asset@, d as int) is Some),
            ok ==> final(self).wf() && Some(final(self).as_map())
                == pool_add(old(self).as_map(), asset@, d as int),
            !ok ==> *final(self) == *old(self),
    {
        proof {
            self.m.lemma_dom();
        }
        let cur: i128 = match self.m.get(&asset.id) {
            Some(v) => *v,
            None => 0,
        };
        match cur.checked_add(d) {
            None => false,
            Some(s) => {
                let ghost old_m = self.m;
                if s == 0 {
                    self.m.remove(&asset.id);
                } else {
                    self.m.insert(copy_bytes(&asset.id), s);
                }
                proof {
                    self.m.lemma_dom();
                    assert forall|k: Seq<u8>| #[trigger] self.m.contains_key(k)
                        implies self.m.as_map()[k] != 0 by {
                        if k != asset@ {
                            assert(old_m.contains_key(k));
                            assert(self.m.as_map()[k] == old_m.as_map()[k]);
                        }
                    }
                }
                true
            },
        }
    }

    /// Credits the pool with `value` units of `asset`, as a transparent
    /// input does; fails on overflow.
    pub fn checked_add_value(&mut self, asset: &AssetType, value: u64) -> (ok: bool)
        requires
            old(self).wf(),
        ensures
            ok == (pool_add(old(self).as_map(), asset@, value as int) is Some),
            ok ==> final(self).wf() && Some(final(self).as_map())
                == pool_add(old(self).as_map(), asset@, value as int),
            !ok ==> *final(self) == *old(self),
    {
        self.add_signed(asset, value as i128)
    }

    /// Debits the pool by `value` units of `asset`, as a transparent output
    /// does; fails on overflow.
    pub fn checked_sub_value(&mut self, asset: &AssetType, value: u64) -> (ok: bool)
        requires
            old(self).wf(),
        ensures
            ok == (pool_add(old(self).as_map(), asset@, -(value as int)) is Some),
            ok ==> final(self).wf() && Some(final(self).as_map())
                == pool_add(old(self).as_map(), asset@, -(value as int)),
            !ok ==> *final(self) == *old(self),
    {
        let d: i128 = -(value as i128);
        self.add_signed(asset, d)
    }

    /// Compares the pool with zero.
    pub fn cmp_zero(&self) -> (r: PoolSign)
        requires
            self.wf(),
        ensures
            r == pool_sign(self.as_map()),
    {
        let n = self.m.len();
        if n == 0 {
            proof {
                assert forall|k: Seq<u8>| !self.m.contains_key(k) by {}
                assert(self.as_map() =~= Map::<Seq<u8>, i128>::empty());
            }
            return PoolSign::Zero;
        }
        let mut all_pos: bool = true;
        let mut all_neg: bool = true;
        let mut i: usize = 0;
        while i < n
            invariant
                i <= n,
                n == self.m.spec_len(),
                self.wf(),
                all_pos == forall|j: int|
                    0 <= j < i ==> self.m.val_seq()[j] > 0,
                all_neg == forall|j: int|
                    0 <= j < i ==> self.m.val_seq()[j] < 0,
            decreases n - i,
        {
            let v = *self.m.val_at(i);
            if v <= 0 {
                all_pos = false;
            }
            if v >= 0 {
                all_neg = false;
            }
            i += 1;
        }
        proof {
            assert(self.m.contains_key(self.m.key_seq()[0]));
            assert(!(self.as_map() =~= Map::<Seq<u8>, i128>::empty()));
            if all_pos {
                assert forall|k: Seq<u8>| #[trigger] self.as_map().dom().contains(k)
                    implies self.as_map()[k] > 0 by {
                    let j = choose|j: int|
                        0 <= j < self.m.key_seq().len() && self.m.key_seq()[j] == k;
                    self.m.lemma_entry_at(j);
                }
            } else {
                let j = choose|j: int| 0 <= j < n && !(self.m.val_seq()[j] > 0);
                self.m.lemma_entry_at(j);
                assert(self.as_map().dom().contains(self.m.key_seq()[j])
                    && !(self.as_map()[self.m.key_seq()[j]] > 0));
            }
            if all_neg {
                assert forall|k: Seq<u8>| #[trigger] self.as_map().dom().contains(k)
                    implies self.as_map()[k] < 0 by {
                    let j = choose|j: int|
                        0 <= j < self.m.key_seq().len() && self.m.key_seq()[j] == k;
                    self.m.lemma_entry_at(j);
                }
            } else {
                let j = choose|j: int| 0 <= j < n && !(self.m.val_seq()[j] < 0);
                self.m.lemma_entry_at(j);
                assert(self.as_map().dom().contains(self.m.key_seq()[j])
                    && !(self.as_map()[self.m.key_seq()[j]] < 0));
            }
        }
        if all_pos {
            PoolSign::Positive
        } else if all_neg {
            PoolSign::Negative
        } else {
            PoolSign::Mixed
        }
    }
}

} // verus!
