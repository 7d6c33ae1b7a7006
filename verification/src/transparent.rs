//! Reconciliation of the transparent bundle against the changed balances.
//!
//! For every token whose pool balance changed, one pass walks the bundle:
//! each not-yet-claimed input is folded into the transparent value pool as a
//! credit, then resolved against the conversion registry — an exact
//! (token, denomination, current-epoch) match records a negative delta for
//! its owner and claims the entry; an unepoched variant is accepted only if
//! its epoched counterpart does not exist in the registry (the
//! anti-backdating rule). Outputs run symmetrically, as debits with positive
//! deltas and the epoch test relaxed to at-most-current. The per-token
//! deltas must equal the storage deltas address by address, and after all
//! passes every bundle entry must have been claimed.

use vstd::prelude::*;
use crate::amount::{amount_of, Amount, MaspDigitPos, SignedAmount};
use crate::asset::{asset_type_of, unepoched_map, unepoched_tokens};
use crate::balance::ChangedBalances;
use crate::bytes::{bytes_eq, copy_bytes};
use crate::error::Error;
use crate::kv::KvMap;
use crate::state::{MaspVp, VpCtx};
use crate::tx::{Transaction, TransparentBundle, TransparentEntry};
use crate::value_sum::{pool_add, ValueSum};

verus! {

/// The state a reconciliation pass threads along: which bundle entries are
/// claimed, and the transparent value pool.
pub struct ReconState {
    pub vin_claimed: Seq<bool>,
    pub vout_claimed: Seq<bool>,
    pub pool: Map<Seq<u8>, i128>,
}

pub open spec fn all_true(s: Seq<bool>) -> bool {
    forall|i: int| 0 <= i < s.len() ==> s[i]
}

/// The delta an owner's entry starts from: inputs accumulate from a zero
/// debit, outputs from a zero credit.
pub open spec fn entry_default(negative: bool) -> SignedAmount {
    if negative {
        SignedAmount::Negative(Amount::spec_zero())
    } else {
        SignedAmount::Positive(Amount::spec_zero())
    }
}

/// The signed contribution of one bundle entry at digit position `digit`.
pub open spec fn entry_delta(negative: bool, value: u64, digit: MaspDigitPos) -> SignedAmount {
    if negative {
        SignedAmount::Negative(amount_of(value * digit.scale()))
    } else {
        SignedAmount::Positive(amount_of(value * digit.scale()))
    }
}

/// Accumulates `add` into the delta of `k`, failing on overflow.
pub open spec fn delta_add(
    deltas: Map<Seq<u8>, SignedAmount>,
    k: Seq<u8>,
    default: SignedAmount,
    add: SignedAmount,
) -> Option<Map<Seq<u8>, SignedAmount>> {
    let cur = if deltas.dom().contains(k) {
        deltas[k]
    } else {
        default
    };
    match cur.spec_checked_add(add) {
        None => None,
        Some(nd) => Some(deltas.insert(k, nd)),
    }
}

/// One unclaimed transparent entry's effect on a token pass. `negative`
/// distinguishes inputs (credits to the pool, negative owner deltas, exact
/// epoch, subject to the anti-backdating rule) from outputs (debits,
/// positive deltas, epoch at most current); it also picks the claim list
/// the entry belongs to.
pub open spec fn entry_step(
    ctx: VpCtx,
    token: Seq<u8>,
    denom: u8,
    st: ReconState,
    deltas: Map<Seq<u8>, SignedAmount>,
    entry: TransparentEntry,
    i: int,
    negative: bool,
) -> Result<(ReconState, Map<Seq<u8>, SignedAmount>), Error> {
    let d: int = if negative {
        entry.value as int
    } else {
        -(entry.value as int)
    };
    match pool_add(st.pool, entry.asset_type@, d) {
        None => Err(Error::ArithmeticOverflow),
        Some(pool2) => {
            let st1 = ReconState {
                vin_claimed: st.vin_claimed,
                vout_claimed: st.vout_claimed,
                pool: pool2,
            };
            if ctx.conversion.contains_key(entry.asset_type@) {
                let ra = ctx.conversion.as_map()[entry.asset_type@];
                let epoch_ok = if negative {
                    ra.epoch == ctx.epoch
                } else {
                    ra.epoch <= ctx.epoch
                };
                if ra.token@ == token && ra.denom == denom && epoch_ok {
                    match delta_add(
                        deltas,
                        entry.address@,
                        entry_default(negative),
                        entry_delta(negative, entry.value, ra.digit),
                    ) {
                        None => Err(Error::ArithmeticOverflow),
                        Some(d2) => Ok((claim(st1, i, negative), d2)),
                    }
                } else {
                    Ok((st1, deltas))
                }
            } else if unepoched_map(token, denom).dom().contains(entry.asset_type@) {
                let digit = unepoched_map(token, denom)[entry.asset_type@];
                if negative && ctx.conversion.contains_key(
                    asset_type_of(token, denom, digit, Some(ctx.epoch)),
                ) {
                    Err(Error::BackdatedAssetType)
                } else {
                    match delta_add(
                        deltas,
                        entry.address@,
                        entry_default(negative),
                        entry_delta(negative, entry.value, digit),
                    ) {
                        None => Err(Error::ArithmeticOverflow),
                        Some(d2) => Ok((claim(st1, i, negative), d2)),
                    }
                }
            } else {
                Ok((st1, deltas))
            }
        },
    }
}

/// Marks entry `i` claimed in the input or output claim list.
pub open spec fn claim(st: ReconState, i: int, vin: bool) -> ReconState {
    if vin {
        ReconState {
            vin_claimed: st.vin_claimed.update(i, true),
            vout_claimed: st.vout_claimed,
            pool: st.pool,
        }
    } else {
        ReconState {
            vin_claimed: st.vin_claimed,
            vout_claimed: st.vout_claimed.update(i, true),
            pool: st.pool,
        }
    }
}

/// Whether entry `i` is already claimed for this direction.
pub open spec fn is_claimed(st: ReconState, i: int, vin: bool) -> bool {
    if vin {
        st.vin_claimed[i]
    } else {
        st.vout_claimed[i]
    }
}

/// Folds one direction of the bundle, entry by entry, skipping claimed ones.
pub open spec fn entries_fold(
    ctx: VpCtx,
    token: Seq<u8>,
    denom: u8,
    entries: Seq<TransparentEntry>,
    i: int,
    st: ReconState,
    deltas: Map<Seq<u8>, SignedAmount>,
    negative: bool,
) -> Result<(ReconState, Map<Seq<u8>, SignedAmount>), Error>
    decreases entries.len() - i,
{
    if 0 <= i < entries.len() {
        if is_claimed(st, i, negative) {
            entries_fold(ctx, token, denom, entries, i + 1, st, deltas, negative)
        } else {
            match entry_step(ctx, token, denom, st, deltas, entries[i], i, negative) {
                Err(e) => Err(e),
                Ok((st2, d2)) => entries_fold(ctx, token, denom, entries, i + 1, st2, d2, negative),
            }
        }
    } else {
        Ok((st, deltas))
    }
}

/// The per-token deltas must appear, address by address, among the storage
/// deltas of that token.
pub open spec fn deltas_match(
    deltas: Map<Seq<u8>, SignedAmount>,
    other: Map<Seq<u8>, Map<Seq<u8>, SignedAmount>>,
    token: Seq<u8>,
) -> bool {
    forall|h: Seq<u8>| #[trigger] deltas.dom().contains(h)
        ==> other.dom().contains(token) && other[token].dom().contains(h) && other[token][h]
        == deltas[h]
}

/// One token's reconciliation pass over the whole bundle.
pub open spec fn token_pass(
    ctx: VpCtx,
    other: Map<Seq<u8>, Map<Seq<u8>, SignedAmount>>,
    bundle: TransparentBundle,
    token: Seq<u8>,
    st: ReconState,
) -> Result<ReconState, Error> {
    if !ctx.pre.denoms.contains_key(token) {
        Err(Error::StorageReadFailure)
    } else {
        let denom = ctx.pre.denoms.as_map()[token];
        match entries_fold(ctx, token, denom, bundle.vin@, 0, st, Map::empty(), true) {
            Err(e) => Err(e),
            Ok((st1, deltas1)) => match entries_fold(
                ctx,
                token,
                denom,
                bundle.vout@,
                0,
                st1,
                deltas1,
                false,
            ) {
                Err(e) => Err(e),
                Ok((st2, deltas2)) => {
                    if deltas_match(deltas2, other, token) {
                        Ok(st2)
                    } else {
                        Err(Error::BundleStorageMismatch)
                    }
                },
            },
        }
    }
}

/// Folds the reconciliation passes of every changed token, in order.
pub open spec fn tokens_fold(
    ctx: VpCtx,
    other: Map<Seq<u8>, Map<Seq<u8>, SignedAmount>>,
    bundle: TransparentBundle,
    masp: Seq<Seq<u8>>,
    t: int,
    st: ReconState,
) -> Result<ReconState, Error>
    decreases masp.len() - t,
{
    if 0 <= t < masp.len() {
        match token_pass(ctx, other, bundle, masp[t], st) {
            Err(e) => Err(e),
            Ok(st2) => tokens_fold(ctx, other, bundle, masp, t + 1, st2),
        }
    } else {
        Ok(st)
    }
}

/// What transparent-bundle validation returns: with no bundle, any changed
/// pool balance is rejected; with one, every pass must succeed, the deltas
/// must match storage, and every entry must end up claimed. On success the
/// value is the updated transparent value pool.
pub open spec fn transparent_bundle_spec(
    ctx: VpCtx,
    tx: Transaction,
    masp: Seq<Seq<u8>>,
    other: Map<Seq<u8>, Map<Seq<u8>, SignedAmount>>,
    pool0: Map<Seq<u8>, i128>,
) -> Result<Map<Seq<u8>, i128>, Error> {
    match tx.transparent_bundle {
        None => {
            if masp.len() == 0 {
                Ok(pool0)
            } else {
                Err(Error::BundleStorageMismatch)
            }
        },
        Some(bundle) => {
            let st0 = ReconState {
                vin_claimed: Seq::new(bundle.vin@.len(), |i: int| false),
                vout_claimed: Seq::new(bundle.vout@.len(), |i: int| false),
                pool: pool0,
            };
            match tokens_fold(ctx, other, bundle, masp, 0, st0) {
                Err(e) => Err(e),
                Ok(st) => {
                    if all_true(st.vin_claimed) && all_true(st.vout_claimed) {
                        Ok(st.pool)
                    } else {
                        Err(Error::UnclaimedBundleEntries)
                    }
                },
            }
        },
    }
}

/// Accumulates one entry's contribution into its owner's delta; fails on
/// overflow, leaving the deltas unchanged.
fn record_delta(
    tbb: &mut KvMap<SignedAmount>,
    owner_hash: &Vec<u8>,
    value: u64,
    digit: MaspDigitPos,
    negative: bool,
) -> (ok: bool)
    requires
        old(tbb).wf(),
    ensures
        ok == (delta_add(
            old(tbb).as_map(),
            owner_hash@,
            entry_default(negative),
            entry_delta(negative, value, digit),
        ) is Some),
        ok ==> final(tbb).wf() && Some(final(tbb).as_map()) == delta_add(
            old(tbb).as_map(),
            owner_hash@,
            entry_default(negative),
            entry_delta(negative, value, digit),
        ),
        !ok ==> *final(tbb) == *old(tbb),
{
    proof {
        old(tbb).lemma_dom();
        tbb.lemma_dom();
    }
    let cur: SignedAmount = match tbb.get(owner_hash) {
        Some(s) => *s,
        None => {
            if negative {
                SignedAmount::Negative(Amount::zero())
            } else {
                SignedAmount::Positive(Amount::zero())
            }
        },
    };
    let amount = Amount::from_masp_denominated(value, digit);
    let add = if negative {
        SignedAmount::Negative(amount)
    } else {
        SignedAmount::Positive(amount)
    };
    proof {
        assert(add == entry_delta(negative, value, digit));
    }
    match cur.checked_add(&add) {
        None => false,
        Some(nd) => {
            tbb.insert(copy_bytes(owner_hash), nd);
            true
        },
    }
}

impl MaspVp {
    /// Reconciles the transparent bundle with the changed balances, folding
    /// its entries into the transparent value pool.
    #[verifier::rlimit(100)]
    pub fn validate_transparent_bundle(
        &self,
        shielded_tx: &Transaction,
        changed_balances: &ChangedBalances,
        transparent_tx_pool: &mut ValueSum,
    ) -> (r: Result<(), Error>)
        requires
            self.ctx.wf(),
            old(transparent_tx_pool).wf(),
            changed_balances.wf(),
        ensures
            match r {
                Ok(()) => final(transparent_tx_pool).wf() && transparent_bundle_spec(
                    self.ctx,
                    *shielded_tx,
                    changed_balances.masp_view(),
                    changed_balances.other_view(),
                    old(transparent_tx_pool).as_map(),
                ) == Ok::<Map<Seq<u8>, i128>, Error>(final(transparent_tx_pool).as_map()),
                Err(e) => transparent_bundle_spec(
                    self.ctx,
                    *shielded_tx,
                    changed_balances.masp_view(),
                    changed_balances.other_view(),
                    old(transparent_tx_pool).as_map(),
                ) == Err::<Map<Seq<u8>, i128>, Error>(e),
            },
    {
        let ghost maspv = changed_balances.masp_view();
        let ghost otherv = changed_balances.other_view();
        let ghost pool0 = old(transparent_tx_pool).as_map();
        let bundle: &TransparentBundle = match &shielded_tx.transparent_bundle {
            None => {
                if changed_balances.masp.len() == 0 {
                    return Ok(());
                } else {
                    return Err(Error::BundleStorageMismatch);
                }
            },
            Some(b) => b,
        };
        let ghost bundlev = shielded_tx.transparent_bundle->Some_0;
        let n_vin = bundle.vin.len();
        let n_vout = bundle.vout.len();
        let mut vin_claimed: Vec<bool> = vec![false; n_vin];
        let mut vout_claimed: Vec<bool> = vec![false; n_vout];
        proof {
            assert(vin_claimed@ =~= Seq::new(n_vin as nat, |i: int| false));
            assert(vout_claimed@ =~= Seq::new(n_vout as nat, |i: int| false));
        }
        let mut t: usize = 0;
        while t < changed_balances.masp.len()
            invariant
                self.ctx.wf(),
                changed_balances.wf(),
                transparent_tx_pool.wf(),
                t <= changed_balances.masp.len(),
                maspv == changed_balances.masp_view(),
                otherv == changed_balances.other_view(),
                pool0 == old(transparent_tx_pool).as_map(),
                shielded_tx.transparent_bundle matches Some(bv) && bv == bundlev,
                *bundle == bundlev,
                vin_claimed@.len() == bundlev.vin@.len(),
                vout_claimed@.len() == bundlev.vout@.len(),
                transparent_bundle_spec(self.ctx, *shielded_tx, maspv, otherv, pool0) == (
                match tokens_fold(
                    self.ctx,
                    otherv,
                    bundlev,
                    maspv,
                    t as int,
                    ReconState {
                        vin_claimed: vin_claimed@,
                        vout_claimed: vout_claimed@,
                        pool: transparent_tx_pool.as_map(),
                    },
                ) {
                    Err(e) => Err(e),
                    Ok(st) => {
                        if all_true(st.vin_claimed) && all_true(st.vout_claimed) {
                            Ok(st.pool)
                        } else {
                            Err(Error::UnclaimedBundleEntries)
                        }
                    },
                }),
            decreases changed_balances.masp.len() - t,
        {
            let token = &changed_balances.masp[t];
            let ghost tokenv = maspv[t as int];
            proof {
                assert(token@ == tokenv);
            }
            let ghost pass_st = ReconState {
                vin_claimed: vin_claimed@,
                vout_claimed: vout_claimed@,
                pool: transparent_tx_pool.as_map(),
            };
            let denom: u8 = match self.ctx.pre.denoms.get(&token.bytes) {
                Some(d) => *d,
                None => {
                    proof {
                        assert(token_pass(self.ctx, otherv, bundlev, tokenv, pass_st)
                            == Err::<ReconState, Error>(Error::StorageReadFailure));
                        assert(tokens_fold(self.ctx, otherv, bundlev, maspv, t as int, pass_st)
                            == Err::<ReconState, Error>(Error::StorageReadFailure));
                    }
                    return Err(Error::StorageReadFailure);
                },
            };
            let unepoched = unepoched_tokens(token, denom);
            let mut tbb: KvMap<SignedAmount> = KvMap::new();
            proof {
                assert(tbb.as_map() == Map::<Seq<u8>, SignedAmount>::empty());
            }

            // Transparent inputs: credits to the pool, negative owner deltas,
            // the asset's epoch must equal the current one.
            let mut i: usize = 0;
            while i < bundle.vin.len()
                invariant
                    self.ctx.wf(),
                    changed_balances.wf(),
                    transparent_tx_pool.wf(),
                    tbb.wf(),
                    unepoched.wf(),
                    unepoched.as_map() == unepoched_map(tokenv, denom),
                    i <= bundle.vin.len(),
                    t < changed_balances.masp.len(),
                    maspv == changed_balances.masp_view(),
                    otherv == changed_balances.other_view(),
                    pool0 == old(transparent_tx_pool).as_map(),
                    shielded_tx.transparent_bundle matches Some(bv) && bv == bundlev,
                    *bundle == bundlev,
                    token@ == tokenv,
                    vin_claimed@.len() == bundlev.vin@.len(),
                    vout_claimed@.len() == bundlev.vout@.len(),
                    maspv[t as int] == tokenv,
                    self.ctx.pre.denoms.contains_key(tokenv),
                    self.ctx.pre.denoms.as_map()[tokenv] == denom,
                    entries_fold(
                        self.ctx,
                        tokenv,
                        denom,
                        bundlev.vin@,
                        i as int,
                        ReconState {
                            vin_claimed: vin_claimed@,
                            vout_claimed: vout_claimed@,
                            pool: transparent_tx_pool.as_map(),
                        },
                        tbb.as_map(),
                        true,
                    ) == entries_fold(
                        self.ctx,
                        tokenv,
                        denom,
                        bundlev.vin@,
                        0,
                        pass_st,
                        Map::empty(),
                        true,
                    ),
                    transparent_bundle_spec(self.ctx, *shielded_tx, maspv, otherv, pool0) == (
                    match tokens_fold(self.ctx, otherv, bundlev, maspv, t as int, pass_st) {
                        Err(e) => Err(e),
                        Ok(st) => {
                            if all_true(st.vin_claimed) && all_true(st.vout_claimed) {
                                Ok(st.pool)
                            } else {
                                Err(Error::UnclaimedBundleEntries)
                            }
                        },
                    }),
                decreases bundle.vin.len() - i,
            {
                let ghost st_i = ReconState {
                    vin_claimed: vin_claimed@,
                    vout_claimed: vout_claimed@,
                    pool: transparent_tx_pool.as_map(),
                };
                let ghost tbb_i = tbb.as_map();
                if !vin_claimed[i] {
                    let r = self.bundle_entry_pass(
                        &bundle.vin[i],
                        i,
                        token,
                        denom,
                        &unepoched,
                        &mut vin_claimed,
                        &mut vout_claimed,
                        &mut tbb,
                        transparent_tx_pool,
                        true,
                        Ghost(st_i),
                        Ghost(tbb_i),
                        Ghost(bundlev.vin@),
                    );
                    if let Err(e) = r {
                        proof {
                            assert(entries_fold(
                                self.ctx, tokenv, denom, bundlev.vin@, i as int, st_i, tbb_i, true,
                            ) == Err::<(ReconState, Map<Seq<u8>, SignedAmount>), Error>(e));
                            assert(entries_fold(
                                self.ctx, tokenv, denom, bundlev.vin@, 0, pass_st,
                                Map::empty(), true,
                            ) == Err::<(ReconState, Map<Seq<u8>, SignedAmount>), Error>(e));
                            assert(token_pass(self.ctx, otherv, bundlev, tokenv, pass_st)
                                == Err::<ReconState, Error>(e));
                            lemma_pass_err_propagates(
                                self.ctx, otherv, bundlev, maspv, t as int, tokenv, denom,
                                pass_st, e,
                            );
                        }
                        return Err(e);
                    }
                }
                proof {
                    assert(entries_fold(
                        self.ctx,
                        tokenv,
                        denom,
                        bundlev.vin@,
                        i + 1,
                        ReconState {
                            vin_claimed: vin_claimed@,
                            vout_claimed: vout_claimed@,
                            pool: transparent_tx_pool.as_map(),
                        },
                        tbb.as_map(),
                        true,
                    ) == entries_fold(
                        self.ctx, tokenv, denom, bundlev.vin@, i as int, st_i, tbb_i, true,
                    ));
                }
                i += 1;
            }
            let ghost st_mid = ReconState {
                vin_claimed: vin_claimed@,
                vout_claimed: vout_claimed@,
                pool: transparent_tx_pool.as_map(),
            };
            let ghost tbb_mid = tbb.as_map();
            proof {
                assert(entries_fold(
                    self.ctx, tokenv, denom, bundlev.vin@, 0, pass_st, Map::empty(), true,
                ) == Ok::<(ReconState, Map<Seq<u8>, SignedAmount>), Error>((st_mid, tbb_mid)));
            }

            // Transparent outputs: debits from the pool, positive owner
            // deltas, the asset's epoch at most the current one.
            let mut j: usize = 0;
            while j < bundle.vout.len()
                invariant
                    self.ctx.wf(),
                    changed_balances.wf(),
                    transparent_tx_pool.wf(),
                    tbb.wf(),
                    unepoched.wf(),
                    unepoched.as_map() == unepoched_map(tokenv, denom),
                    j <= bundle.vout.len(),
                    t < changed_balances.masp.len(),
                    maspv == changed_balances.masp_view(),
                    otherv == changed_balances.other_view(),
                    pool0 == old(transparent_tx_pool).as_map(),
                    shielded_tx.transparent_bundle matches Some(bv) && bv == bundlev,
                    *bundle == bundlev,
                    token@ == tokenv,
                    vin_claimed@.len() == bundlev.vin@.len(),
                    vout_claimed@.len() == bundlev.vout@.len(),
                    maspv[t as int] == tokenv,
                    self.ctx.pre.denoms.contains_key(tokenv),
                    self.ctx.pre.denoms.as_map()[tokenv] == denom,
                    entries_fold(
                        self.ctx, tokenv, denom, bundlev.vin@, 0, pass_st, Map::empty(), true,
                    ) == Ok::<(ReconState, Map<Seq<u8>, SignedAmount>), Error>(
                        (st_mid, tbb_mid),
                    ),
                    entries_fold(
                        self.ctx,
                        tokenv,
                        denom,
                        bundlev.vout@,
                        j as int,
                        ReconState {
                            vin_claimed: vin_claimed@,
                            vout_claimed: vout_claimed@,
                            pool: transparent_tx_pool.as_map(),
                        },
                        tbb.as_map(),
                        false,
                    ) == entries_fold(
                        self.ctx, tokenv, denom, bundlev.vout@, 0, st_mid, tbb_mid, false,
                    ),
                    transparent_bundle_spec(self.ctx, *shielded_tx, maspv, otherv, pool0) == (
                    match tokens_fold(self.ctx, otherv, bundlev, maspv, t as int, pass_st) {
                        Err(e) => Err(e),
                        Ok(st) => {
                            if all_true(st.vin_claimed) && all_true(st.vout_claimed) {
                                Ok(st.pool)
                            } else {
                                Err(Error::UnclaimedBundleEntries)
                            }
                        },
                    }),
                decreases bundle.vout.len() - j,
            {
                let ghost st_j = ReconState {
                    vin_claimed: vin_claimed@,
                    vout_claimed: vout_claimed@,
                    pool: transparent_tx_pool.as_map(),
                };
                let ghost tbb_j = tbb.as_map();
                if !vout_claimed[j] {
                    let r = self.bundle_entry_pass(
                        &bundle.vout[j],
                        j,
                        token,
                        denom,
                        &unepoched,
                        &mut vin_claimed,
                        &mut vout_claimed,
                        &mut tbb,
                        transparent_tx_pool,
                        false,
                        Ghost(st_j),
                        Ghost(tbb_j),
                        Ghost(bundlev.vout@),
                    );
                    if let Err(e) = r {
                        proof {
                            assert(entries_fold(
                                self.ctx, tokenv, denom, bundlev.vout@, j as int, st_j, tbb_j,
                                false,
                            ) == Err::<(ReconState, Map<Seq<u8>, SignedAmount>), Error>(e));
                            assert(entries_fold(
                                self.ctx, tokenv, denom, bundlev.vout@, 0, st_mid, tbb_mid,
                                false,
                            ) == Err::<(ReconState, Map<Seq<u8>, SignedAmount>), Error>(e));
                            assert(token_pass(self.ctx, otherv, bundlev, tokenv, pass_st)
                                == Err::<ReconState, Error>(e));
                            lemma_pass_err_propagates(
                                self.ctx, otherv, bundlev, maspv, t as int, tokenv, denom,
                                pass_st, e,
                            );
                        }
                        return Err(e);
                    }
                }
                proof {
                    assert(entries_fold(
                        self.ctx,
                        tokenv,
                        denom,
                        bundlev.vout@,
                        j + 1,
                        ReconState {
                            vin_claimed: vin_claimed@,
                            vout_claimed: vout_claimed@,
                            pool: transparent_tx_pool.as_map(),
                        },
                        tbb.as_map(),
                        false,
                    ) == entries_fold(
                        self.ctx, tokenv, denom, bundlev.vout@, j as int, st_j, tbb_j, false,
                    ));
                }
                j += 1;
            }
            let ghost st_end = ReconState {
                vin_claimed: vin_claimed@,
                vout_claimed: vout_claimed@,
                pool: transparent_tx_pool.as_map(),
            };
            let ghost tbb_end = tbb.as_map();
            proof {
                assert(entries_fold(
                    self.ctx, tokenv, denom, bundlev.vout@, 0, st_mid, tbb_mid, false,
                ) == Ok::<(ReconState, Map<Seq<u8>, SignedAmount>), Error>((st_end, tbb_end)));
            }

            // The deltas this pass accumulated must match storage.
            let tbb_len = tbb.len();
            let mut q: usize = 0;
            while q < tbb_len
                invariant
                    tbb_len == tbb.spec_len(),
                    self.ctx.wf(),
                    changed_balances.wf(),
                    transparent_tx_pool.wf(),
                    tbb.wf(),
                    q <= tbb.spec_len(),
                    t < changed_balances.masp.len(),
                    maspv == changed_balances.masp_view(),
                    otherv == changed_balances.other_view(),
                    pool0 == old(transparent_tx_pool).as_map(),
                    shielded_tx.transparent_bundle matches Some(bv) && bv == bundlev,
                    vin_claimed@.len() == bundlev.vin@.len(),
                    vout_claimed@.len() == bundlev.vout@.len(),
                    maspv[t as int] == tokenv,
                    self.ctx.pre.denoms.contains_key(tokenv),
                    self.ctx.pre.denoms.as_map()[tokenv] == denom,
                    tbb.as_map() == tbb_end,
                    token@ == tokenv,
                    st_end == (ReconState {
                        vin_claimed: vin_claimed@,
                        vout_claimed: vout_claimed@,
                        pool: transparent_tx_pool.as_map(),
                    }),
                    entries_fold(
                        self.ctx, tokenv, denom, bundlev.vin@, 0, pass_st, Map::empty(), true,
                    ) == Ok::<(ReconState, Map<Seq<u8>, SignedAmount>), Error>(
                        (st_mid, tbb_mid),
                    ),
                    entries_fold(
                        self.ctx, tokenv, denom, bundlev.vout@, 0, st_mid, tbb_mid, false,
                    ) == Ok::<(ReconState, Map<Seq<u8>, SignedAmount>), Error>(
                        (st_end, tbb_end),
                    ),
                    transparent_bundle_spec(self.ctx, *shielded_tx, maspv, otherv, pool0) == (
                    match tokens_fold(self.ctx, otherv, bundlev, maspv, t as int, pass_st) {
                        Err(e) => Err(e),
                        Ok(st) => {
                            if all_true(st.vin_claimed) && all_true(st.vout_claimed) {
                                Ok(st.pool)
                            } else {
                                Err(Error::UnclaimedBundleEntries)
                            }
                        },
                    }),
                    forall|x: int|
                        0 <= x < q ==> otherv.dom().contains(tokenv) && otherv[tokenv]
                            .dom().contains(#[trigger] tbb.key_seq()[x]) && otherv[tokenv][
                            tbb.key_seq()[x]
                        ] == tbb.val_seq()[x],
                decreases tbb_len - q,
            {
                let h = tbb.key_at(q);
                let d = *tbb.val_at(q);
                let matched: bool = match changed_balances.other.get(&token.bytes) {
                    Some(inner) => match inner.get(h) {
                        Some(sd) => *sd == d,
                        None => false,
                    },
                    None => false,
                };
                if !matched {
                    proof {
                        changed_balances.other.lemma_dom();
                        assert(tbb_end.dom().contains(h@));
                        assert(!(otherv.dom().contains(tokenv) && otherv[tokenv].dom().contains(
                            h@,
                        ) && otherv[tokenv][h@] == tbb_end[h@]));
                        assert(!deltas_match(tbb_end, otherv, tokenv));
                    }
                    proof {
                        assert(token_pass(self.ctx, otherv, bundlev, tokenv, pass_st)
                            == Err::<ReconState, Error>(Error::BundleStorageMismatch));
                        assert(tokens_fold(self.ctx, otherv, bundlev, maspv, t as int, pass_st)
                            == Err::<ReconState, Error>(Error::BundleStorageMismatch));
                    }
                    return Err(Error::BundleStorageMismatch);
                }
                proof {
                    changed_balances.other.lemma_dom();
                    assert(otherv.dom().contains(tokenv));
                    assert(otherv[tokenv].dom().contains(tbb.key_seq()[q as int]));
                    assert(otherv[tokenv][tbb.key_seq()[q as int]] == tbb.val_seq()[q as int]);
                }
                q += 1;
            }
            proof {
                assert forall|h: Seq<u8>| #[trigger] tbb_end.dom().contains(h)
                    implies otherv.dom().contains(tokenv) && otherv[tokenv].dom().contains(h)
                        && otherv[tokenv][h] == tbb_end[h] by {
                    tbb.lemma_dom();
                    assert(tbb.as_map().dom().contains(h));
                    assert(tbb.contains_key(h));
                    let x = choose|x: int|
                        0 <= x < tbb.key_seq().len() && tbb.key_seq()[x] == h;
                    assert(0 <= x < tbb.key_seq().len() && tbb.key_seq()[x] == h);
                    assert(otherv.dom().contains(tokenv) && otherv[tokenv].dom().contains(
                        tbb.key_seq()[x],
                    ) && otherv[tokenv][tbb.key_seq()[x]] == tbb.val_seq()[x]);
                    tbb.lemma_entry_at(x);
                    assert(tbb_end[h] == tbb.val_seq()[x]);
                }
                assert(deltas_match(tbb_end, otherv, tokenv));
                assert(token_pass(self.ctx, otherv, bundlev, tokenv, pass_st)
                    == Ok::<ReconState, Error>(st_end));
                assert(tokens_fold(self.ctx, otherv, bundlev, maspv, t as int, pass_st)
                    == tokens_fold(self.ctx, otherv, bundlev, maspv, t + 1, st_end));
            }
            t += 1;
        }

        // Every bundle entry must have been claimed by some pass.
        proof {
            assert(tokens_fold(
                self.ctx,
                otherv,
                bundlev,
                maspv,
                t as int,
                ReconState {
                    vin_claimed: vin_claimed@,
                    vout_claimed: vout_claimed@,
                    pool: transparent_tx_pool.as_map(),
                },
            ) == Ok::<ReconState, Error>(ReconState {
                vin_claimed: vin_claimed@,
                vout_claimed: vout_claimed@,
                pool: transparent_tx_pool.as_map(),
            }));
        }
        let mut a: usize = 0;
        while a < vin_claimed.len()
            invariant
                a <= vin_claimed@.len(),
                forall|x: int| 0 <= x < a ==> vin_claimed@[x],
                transparent_tx_pool.wf(),
                maspv == changed_balances.masp_view(),
                otherv == changed_balances.other_view(),
                pool0 == old(transparent_tx_pool).as_map(),
                transparent_bundle_spec(self.ctx, *shielded_tx, maspv, otherv, pool0) == (
                if all_true(vin_claimed@) && all_true(vout_claimed@) {
                    Ok::<Map<Seq<u8>, i128>, Error>(transparent_tx_pool.as_map())
                } else {
                    Err::<Map<Seq<u8>, i128>, Error>(Error::UnclaimedBundleEntries)
                }),
            decreases vin_claimed.len() - a,
        {
            if !vin_claimed[a] {
                proof {
                    assert(!all_true(vin_claimed@));
                }
                return Err(Error::UnclaimedBundleEntries);
            }
            a += 1;
        }
        proof {
            assert(all_true(vin_claimed@));
        }
        let mut b: usize = 0;
        while b < vout_claimed.len()
            invariant
                b <= vout_claimed@.len(),
                all_true(vin_claimed@),
                forall|x: int| 0 <= x < b ==> vout_claimed@[x],
                transparent_tx_pool.wf(),
                maspv == changed_balances.masp_view(),
                otherv == changed_balances.other_view(),
                pool0 == old(transparent_tx_pool).as_map(),
                transparent_bundle_spec(self.ctx, *shielded_tx, maspv, otherv, pool0) == (
                if all_true(vin_claimed@) && all_true(vout_claimed@) {
                    Ok::<Map<Seq<u8>, i128>, Error>(transparent_tx_pool.as_map())
                } else {
                    Err::<Map<Seq<u8>, i128>, Error>(Error::UnclaimedBundleEntries)
                }),
            decreases vout_claimed.len() - b,
        {
            if !vout_claimed[b] {
                proof {
                    assert(!all_true(vout_claimed@));
                }
                return Err(Error::UnclaimedBundleEntries);
            }
            b += 1;
        }
        proof {
            assert(all_true(vin_claimed@));
            assert(all_true(vout_claimed@));
        }
        Ok(())
    }

    /// Processes one unclaimed bundle entry of a token pass: folds its value
    /// into the pool, resolves its asset, records its owner delta and claims
    /// it when it belongs to this token.
    #[allow(clippy::too_many_arguments)]
    #[verifier::rlimit(100)]
    fn bundle_entry_pass(
        &self,
        entry: &TransparentEntry,
        i: usize,
        token: &crate::types::Address,
        denom: u8,
        unepoched: &KvMap<MaspDigitPos>,
        vin_claimed: &mut Vec<bool>,
        vout_claimed: &mut Vec<bool>,
        tbb: &mut KvMap<SignedAmount>,
        pool: &mut ValueSum,
        negative: bool,
        Ghost(st_i): Ghost<ReconState>,
        Ghost(tbb_i): Ghost<Map<Seq<u8>, SignedAmount>>,
        Ghost(entries): Ghost<Seq<TransparentEntry>>,
    ) -> (r: Result<(), Error>)
        requires
            self.ctx.wf(),
            old(pool).wf(),
            old(tbb).wf(),
            unepoched.wf(),
            unepoched.as_map() == unepoched_map(token@, denom),
            st_i == (ReconState {
                vin_claimed: old(vin_claimed)@,
                vout_claimed: old(vout_claimed)@,
                pool: old(pool).as_map(),
            }),
            tbb_i == old(tbb).as_map(),
            i < entries.len(),
            entries[i as int] == *entry,
            negative ==> i < old(vin_claimed)@.len() && !old(vin_claimed)@[i as int],
            !negative ==> i < old(vout_claimed)@.len() && !old(vout_claimed)@[i as int],
        ensures
            final(pool).wf(),
            final(tbb).wf(),
            final(vin_claimed)@.len() == old(vin_claimed)@.len(),
            final(vout_claimed)@.len() == old(vout_claimed)@.len(),
            negative ==> final(vout_claimed)@ == old(vout_claimed)@,
            !negative ==> final(vin_claimed)@ == old(vin_claimed)@,
            match r {
                Ok(()) => entries_fold(
                    self.ctx, token@, denom, entries, i as int, st_i, tbb_i, negative,
                ) == entries_fold(
                    self.ctx,
                    token@,
                    denom,
                    entries,
                    i + 1,
                    ReconState {
                        vin_claimed: final(vin_claimed)@,
                        vout_claimed: final(vout_claimed)@,
                        pool: final(pool).as_map(),
                    },
                    final(tbb).as_map(),
                    negative,
                ),
                Err(e) => entries_fold(
                    self.ctx, token@, denom, entries, i as int, st_i, tbb_i, negative,
                ) == Err::<(ReconState, Map<Seq<u8>, SignedAmount>), Error>(e),
            },
    {
        let ghost entryv = entries[i as int];
        let pool_ok = if negative {
            pool.checked_add_value(&entry.asset_type, entry.value)
        } else {
            pool.checked_sub_value(&entry.asset_type, entry.value)
        };
        if !pool_ok {
            proof {
                assert(entry_step(self.ctx, token@, denom, st_i, tbb_i, entryv, i as int, negative)
                    == Err::<(ReconState, Map<Seq<u8>, SignedAmount>), Error>(
                    Error::ArithmeticOverflow,
                ));
            }
            return Err(Error::ArithmeticOverflow);
        }
        let ghost st1 = ReconState {
            vin_claimed: old(vin_claimed)@,
            vout_claimed: old(vout_claimed)@,
            pool: pool.as_map(),
        };
        proof {
            self.ctx.conversion.lemma_dom();
        }
        let step_result: Result<(), Error> = match self.ctx.conversion.get(&entry.asset_type.id) {
            Some(ra) => {
                let epoch_ok = if negative {
                    ra.epoch == self.ctx.epoch
                } else {
                    ra.epoch <= self.ctx.epoch
                };
                if bytes_eq(&ra.token.bytes, &token.bytes) && ra.denom == denom && epoch_ok {
                    if record_delta(tbb, &entry.address, entry.value, ra.digit, negative) {
                        if negative {
                            vin_claimed.set(i, true);
                        } else {
                            vout_claimed.set(i, true);
                        }
                        Ok(())
                    } else {
                        Err(Error::ArithmeticOverflow)
                    }
                } else {
                    Ok(())
                }
            },
            None => {
                proof {
                    unepoched.lemma_dom();
                }
                match unepoched.get(&entry.asset_type.id) {
                    Some(digit_ref) => {
                        let digit = *digit_ref;
                        let backdated: bool = if negative {
                            let epoched = crate::asset::encode_asset_type(
                                token,
                                denom,
                                digit,
                                Some(self.ctx.epoch),
                            );
                            self.ctx.conversion.contains(&epoched.id)
                        } else {
                            false
                        };
                        if backdated {
                            Err(Error::BackdatedAssetType)
                        } else {
                            if record_delta(tbb, &entry.address, entry.value, digit, negative) {
                                if negative {
                                    vin_claimed.set(i, true);
                                } else {
                                    vout_claimed.set(i, true);
                                }
                                Ok(())
                            } else {
                                Err(Error::ArithmeticOverflow)
                            }
                        }
                    },
                    None => Ok(()),
                }
            },
        };
        proof {
            let step = entry_step(
                self.ctx, token@, denom, st_i, tbb_i, entryv, i as int, negative,
            );
            match step_result {
                Ok(()) => {
                    assert(step == Ok::<(ReconState, Map<Seq<u8>, SignedAmount>), Error>(
                        (
                            ReconState {
                                vin_claimed: vin_claimed@,
                                vout_claimed: vout_claimed@,
                                pool: pool.as_map(),
                            },
                            tbb.as_map(),
                        ),
                    ));
                },
                Err(e) => {
                    assert(step == Err::<(ReconState, Map<Seq<u8>, SignedAmount>), Error>(e));
                },
            }
        }
        step_result
    }
}

/// A pass that fails at any point fails the whole reconciliation with the
/// same error.
proof fn lemma_pass_err_propagates(
    ctx: VpCtx,
    other: Map<Seq<u8>, Map<Seq<u8>, SignedAmount>>,
    bundle: TransparentBundle,
    masp: Seq<Seq<u8>>,
    t: int,
    token: Seq<u8>,
    denom: u8,
    pass_st: ReconState,
    e: Error,
)
    requires
        0 <= t < masp.len(),
        masp[t] == token,
        ctx.pre.denoms.contains_key(token),
        ctx.pre.denoms.as_map()[token] == denom,
        token_pass(ctx, other, bundle, token, pass_st) == Err::<ReconState, Error>(e),
    ensures
        tokens_fold(ctx, other, bundle, masp, t, pass_st) == Err::<ReconState, Error>(e),
{
}

} // verus!
