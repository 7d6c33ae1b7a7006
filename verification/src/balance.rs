//! Key authorization and balance-diff extraction.
//!
//! The extractor refuses writes to reserved pool keys and bad pin entries,
//! then walks the changed balance keys: pool-side entries record only the
//! token (the transparent side is authoritative for pool accounting), while
//! every counterpart entry becomes a signed pre-to-post delta keyed by the
//! 20-byte hash of the counterpart's identity. A minted-sentinel credit is
//! sign-inverted: receiving minted-and-shielded value appears as two
//! credits, and the inversion folds them into one logical transfer.

use vstd::prelude::*;
use vstd::pervasive::unreached;
use crate::amount::{amount_of, Amount, SignedAmount};
use crate::bytes::{bytes_eq, copy_bytes};
use crate::error::Error;
use crate::hashes::{addr_hash_of, address_hash};
use crate::kv::KvMap;
use crate::state::{
    balance_at, counterpart_key_of, enc_balance_key, enc_minted_key, read_balance, ChangedKey,
    MaspVp, VpCtx,
};
use crate::types::{Address, ShieldedActionOwner};

verus! {

/// The tokens whose pool balance changed, and the signed delta of every
/// counterpart balance, per token, keyed by identity hash.
pub struct ChangedBalances {
    pub masp: Vec<Address>,
    pub other: KvMap<KvMap<SignedAmount>>,
}

impl ChangedBalances {
    /// The changed pool-side tokens, in first-appearance order.
    pub open spec fn masp_view(self) -> Seq<Seq<u8>> {
        self.masp@.map_values(|a: Address| a@)
    }

    /// The counterpart deltas, token by token.
    pub open spec fn other_view(self) -> Map<Seq<u8>, Map<Seq<u8>, SignedAmount>> {
        Map::new(
            |k: Seq<u8>| self.other.contains_key(k),
            |k: Seq<u8>| self.other.as_map()[k].as_map(),
        )
    }

    pub open spec fn wf(self) -> bool {
        &&& self.other.wf()
        &&& forall|k: Seq<u8>| #[trigger] self.other.contains_key(k)
            ==> self.other.as_map()[k].wf()
    }
}

/// No changed key lies in the reserved part of the pool's namespace.
pub open spec fn no_reserved_key(keys: Seq<ChangedKey>) -> bool {
    forall|i: int|
        0 <= i < keys.len() ==> !((#[trigger] keys[i]) matches ChangedKey::MaspReserved(_))
}

/// Two distinct changed keys are pin keys.
pub open spec fn two_pins(keys: Seq<ChangedKey>) -> bool {
    exists|i: int, j: int|
        0 <= i < j < keys.len() && ((#[trigger] keys[i]) matches ChangedKey::Pin(_))
            && ((#[trigger] keys[j]) matches ChangedKey::Pin(_))
}

/// A pin entry, when committed, must record this transaction's own position.
pub open spec fn pin_value_ok(ctx: VpCtx, id: Seq<u8>) -> bool {
    if ctx.post.pins.contains_key(id) {
        let itx = ctx.post.pins.as_map()[id];
        itx.height == ctx.block_height && itx.index == ctx.tx_index
    } else {
        true
    }
}

/// At most one pin key, and every pin entry records the right position.
pub open spec fn pins_ok(ctx: VpCtx, keys: Seq<ChangedKey>) -> bool {
    &&& !two_pins(keys)
    &&& forall|i: int|
        0 <= i < keys.len() ==> match #[trigger] keys[i] {
            ChangedKey::Pin(id) => pin_value_ok(ctx, id@),
            _ => true,
        }
}

/// The identity a counterpart is hashed under.
pub open spec fn owner_identity(ctx: VpCtx, owner: ShieldedActionOwner) -> Seq<u8> {
    match owner {
        ShieldedActionOwner::Owner(a) => a@,
        ShieldedActionOwner::Minted => ctx.minted_addr@,
    }
}

/// The signed pre-to-post balance delta.
pub open spec fn spec_balance_diff(pre_b: Amount, post_b: Amount) -> SignedAmount {
    if pre_b.value() <= post_b.value() {
        SignedAmount::Positive(amount_of(post_b.value() - pre_b.value()))
    } else {
        SignedAmount::Negative(amount_of(pre_b.value() - post_b.value()))
    }
}

/// The delta recorded for a counterpart: the balance diff, sign-inverted for
/// a positive minted-sentinel change.
pub open spec fn counterpart_delta(ctx: VpCtx, token: Seq<u8>, owner: ShieldedActionOwner)
    -> SignedAmount {
    let key = counterpart_key_of(token, owner);
    let pre_b = balance_at(ctx.pre.balances.as_map(), key);
    let post_b = balance_at(ctx.post.balances.as_map(), key);
    let diff = spec_balance_diff(pre_b, post_b);
    match owner {
        ShieldedActionOwner::Minted => match diff {
            SignedAmount::Positive(a) => SignedAmount::Negative(a),
            _ => diff,
        },
        _ => diff,
    }
}

/// One changed key's effect on the accumulating changed balances.
pub open spec fn cb_step(
    ctx: VpCtx,
    masp: Seq<Seq<u8>>,
    other: Map<Seq<u8>, Map<Seq<u8>, SignedAmount>>,
    key: ChangedKey,
) -> (Seq<Seq<u8>>, Map<Seq<u8>, Map<Seq<u8>, SignedAmount>>) {
    match key {
        ChangedKey::Balance { token, owner } => {
            if owner matches ShieldedActionOwner::Owner(a) && a@ == ctx.masp_addr@ {
                if masp.contains(token@) {
                    (masp, other)
                } else {
                    (masp.push(token@), other)
                }
            } else {
                let hash = addr_hash_of(owner_identity(ctx, owner));
                let delta = counterpart_delta(ctx, token@, owner);
                let inner = if other.dom().contains(token@) {
                    other[token@]
                } else {
                    Map::<Seq<u8>, SignedAmount>::empty()
                };
                (masp, other.insert(token@, inner.insert(hash, delta)))
            }
        },
        _ => (masp, other),
    }
}

/// Folds the changed keys from index `i` on into the accumulating changed
/// balances.
pub open spec fn cb_fold(
    ctx: VpCtx,
    keys: Seq<ChangedKey>,
    i: int,
    masp: Seq<Seq<u8>>,
    other: Map<Seq<u8>, Map<Seq<u8>, SignedAmount>>,
) -> (Seq<Seq<u8>>, Map<Seq<u8>, Map<Seq<u8>, SignedAmount>>)
    decreases keys.len() - i,
{
    if 0 <= i < keys.len() {
        let (m2, o2) = cb_step(ctx, masp, other, keys[i]);
        cb_fold(ctx, keys, i + 1, m2, o2)
    } else {
        (masp, other)
    }
}

/// The changed balances extracted from the full key list.
pub open spec fn changed_balances_spec(ctx: VpCtx, keys: Seq<ChangedKey>) -> (
    Seq<Seq<u8>>,
    Map<Seq<u8>, Map<Seq<u8>, SignedAmount>>,
) {
    cb_fold(ctx, keys, 0, Seq::empty(), Map::empty())
}

/// What state validation and extraction return.
pub open spec fn extract_spec(ctx: VpCtx, keys: Seq<ChangedKey>) -> Result<
    (Seq<Seq<u8>>, Map<Seq<u8>, Map<Seq<u8>, SignedAmount>>),
    Error,
> {
    if !no_reserved_key(keys) {
        Err(Error::UnauthorizedKeyWrite)
    } else if !pins_ok(ctx, keys) {
        Err(Error::InvalidPinKey)
    } else {
        Ok(changed_balances_spec(ctx, keys))
    }
}

/// Whether some address in the list has identity `a`.
fn addr_list_contains(v: &Vec<Address>, a: &Address) -> (r: bool)
    ensures
        r == v@.map_values(|x: Address| x@).contains(a@),
{
    let ghost views = v@.map_values(|x: Address| x@);
    let mut i: usize = 0;
    while i < v.len()
        invariant
            i <= v.len(),
            views == v@.map_values(|x: Address| x@),
            forall|j: int| 0 <= j < i ==> views[j] != a@,
        decreases v.len() - i,
    {
        if bytes_eq(&v[i].bytes, &a.bytes) {
            assert(views[i as int] == a@);
            return true;
        }
        i += 1;
    }
    proof {
        assert(forall|j: int| 0 <= j < views.len() ==> views[j] != a@);
    }
    false
}

impl MaspVp {
    /// Refuses unauthorized key writes and bad pins, then extracts the
    /// changed balances the transparent bundle must account for.
    pub fn validate_state_and_get_transfer_data(&self, keys_changed: &Vec<ChangedKey>) -> (r:
        Result<ChangedBalances, Error>)
        requires
            self.ctx.wf(),
        ensures
            match r {
                Ok(cb) => {
                    &&& cb.wf()
                    &&& extract_spec(self.ctx, keys_changed@) == Ok::<_, Error>(
                        (cb.masp_view(), cb.other_view()),
                    )
                },
                Err(e) => extract_spec(self.ctx, keys_changed@) == Err::<
                    (Seq<Seq<u8>>, Map<Seq<u8>, Map<Seq<u8>, SignedAmount>>),
                    _,
                >(e),
            },
    {
        // No reserved pool key may have been touched.
        let mut i: usize = 0;
        while i < keys_changed.len()
            invariant
                i <= keys_changed.len(),
                forall|j: int|
                    0 <= j < i ==> !((#[trigger] keys_changed@[j])
                        matches ChangedKey::MaspReserved(_)),
            decreases keys_changed.len() - i,
        {
            if let ChangedKey::MaspReserved(_) = &keys_changed[i] {
                assert(!no_reserved_key(keys_changed@));
                return Err(Error::UnauthorizedKeyWrite);
            }
            i += 1;
        }
        assert(no_reserved_key(keys_changed@));

        // At most one pin key, recording this transaction's own position.
        let mut seen_pin: bool = false;
        let mut pins_valid: bool = true;
        let mut k: usize = 0;
        while k < keys_changed.len()
            invariant
                self.ctx.wf(),
                k <= keys_changed.len(),
                no_reserved_key(keys_changed@),
                seen_pin == exists|j: int|
                    0 <= j < k && (#[trigger] keys_changed@[j]) matches ChangedKey::Pin(_),
                !(exists|i1: int, j1: int|
                    0 <= i1 < j1 < k
                        && ((#[trigger] keys_changed@[i1]) matches ChangedKey::Pin(_))
                        && ((#[trigger] keys_changed@[j1]) matches ChangedKey::Pin(_))),
                pins_valid == forall|j: int|
                    0 <= j < k ==> match #[trigger] keys_changed@[j] {
                        ChangedKey::Pin(id) => pin_value_ok(self.ctx, id@),
                        _ => true,
                    },
            decreases keys_changed.len() - k,
        {
            if let ChangedKey::Pin(id) = &keys_changed[k] {
                if seen_pin {
                    proof {
                        let j0 = choose|j: int|
                            0 <= j < k && (#[trigger] keys_changed@[j])
                                matches ChangedKey::Pin(_);
                        assert(two_pins(keys_changed@));
                    }
                    return Err(Error::InvalidPinKey);
                }
                seen_pin = true;
                let ok = match self.ctx.post.pins.get(id) {
                    Some(itx) => itx.height == self.ctx.block_height
                        && itx.index == self.ctx.tx_index,
                    None => true,
                };
                if !ok {
                    pins_valid = false;
                }
                proof {
                    assert(ok == pin_value_ok(self.ctx, id@));
                }
            }
            k += 1;
        }
        if !pins_valid {
            proof {
                assert(!pins_ok(self.ctx, keys_changed@));
            }
            return Err(Error::InvalidPinKey);
        }
        proof {
            assert(!two_pins(keys_changed@));
            assert(pins_ok(self.ctx, keys_changed@));
        }

        // Extract the changed balances.
        let mut cb = ChangedBalances { masp: Vec::new(), other: KvMap::new() };
        proof {
            assert(cb.masp_view() =~= Seq::<Seq<u8>>::empty());
            assert(cb.other_view() =~= Map::<Seq<u8>, Map<Seq<u8>, SignedAmount>>::empty());
        }
        let mut p: usize = 0;
        while p < keys_changed.len()
            invariant
                self.ctx.wf(),
                p <= keys_changed.len(),
                no_reserved_key(keys_changed@),
                pins_ok(self.ctx, keys_changed@),
                cb.wf(),
                cb_fold(self.ctx, keys_changed@, p as int, cb.masp_view(), cb.other_view())
                    == changed_balances_spec(self.ctx, keys_changed@),
            decreases keys_changed.len() - p,
        {
            let ghost masp0 = cb.masp_view();
            let ghost other0 = cb.other_view();
            if let ChangedKey::Balance { token, owner } = &keys_changed[p] {
                let pool_side: bool = match owner {
                    ShieldedActionOwner::Owner(a) => bytes_eq(&a.bytes, &self.ctx.masp_addr.bytes),
                    ShieldedActionOwner::Minted => false,
                };
                if pool_side {
                    if !addr_list_contains(&cb.masp, token) {
                        cb.masp.push(token.duplicate());
                        proof {
                            assert(cb.masp_view() =~= masp0.push(token@));
                        }
                    }
                } else {
                    let bal_key: Vec<u8> = match owner {
                        ShieldedActionOwner::Owner(a) => enc_balance_key(token, a),
                        ShieldedActionOwner::Minted => enc_minted_key(token),
                    };
                    let pre_b = read_balance(&self.ctx.pre.balances, &bal_key);
                    let post_b = read_balance(&self.ctx.post.balances, &bal_key);
                    let diff0: SignedAmount = match post_b.checked_sub(&pre_b) {
                        Some(d) => SignedAmount::Positive(d),
                        None => match pre_b.checked_sub(&post_b) {
                            Some(d) => SignedAmount::Negative(d),
                            None => unreached(),
                        },
                    };
                    let minted: bool = match owner {
                        ShieldedActionOwner::Minted => true,
                        _ => false,
                    };
                    let diff: SignedAmount = if minted {
                        match diff0 {
                            SignedAmount::Positive(a) => SignedAmount::Negative(a),
                            _ => diff0,
                        }
                    } else {
                        diff0
                    };
                    proof {
                        assert(diff == counterpart_delta(self.ctx, token@, *owner));
                    }
                    let identity: &Address = match owner {
                        ShieldedActionOwner::Owner(a) => a,
                        ShieldedActionOwner::Minted => &self.ctx.minted_addr,
                    };
                    let hash = address_hash(identity);
                    let tkey = copy_bytes(&token.bytes);
                    let mut inner: KvMap<SignedAmount> = match cb.other.remove(&tkey) {
                        Some(m) => m,
                        None => KvMap::new(),
                    };
                    let ghost inner0 = inner.as_map();
                    inner.insert(hash, diff);
                    cb.other.insert(tkey, inner);
                    proof {
                        assert(inner0 == if other0.dom().contains(token@) {
                            other0[token@]
                        } else {
                            Map::<Seq<u8>, SignedAmount>::empty()
                        });
                        assert(cb.other_view() =~= other0.insert(
                            token@,
                            inner0.insert(addr_hash_of(owner_identity(self.ctx, *owner)), diff),
                        ));
                    }
                }
            }
            proof {
                assert((cb.masp_view(), cb.other_view())
                    == cb_step(self.ctx, masp0, other0, keys_changed@[p as int]));
            }
            p += 1;
        }
        Ok(cb)
    }
}

} // verus!
