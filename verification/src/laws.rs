//! The guarantees of one validation pass, stated and proved as laws over
//! [`crate::vp::spec_validate_tx`].
//!
//! Validation runs its checks in a fixed order and stops at the first
//! failure, so each law about a later check assumes the checks before it
//! pass; without that assumption the earlier failure's error is returned
//! instead.

use vstd::prelude::*;
use crate::asset::{asset_type_of, unepoched_map};
use crate::balance::extract_spec;
use crate::error::Error;
use crate::sapling::{
    convert_anchors_spec, double_spend_at, nullifiers_spec, spend_anchors_spec, spend_fault,
    tree_update_spec,
};
use crate::state::{ChangedKey, VpCtx};
use crate::amount::SignedAmount;
use crate::transparent::{
    all_true, entry_step, tokens_fold, transparent_bundle_spec, ReconState,
};
use crate::tx::{SpendDescription, Transaction, TransparentEntry};
use crate::value_sum::{pool_add, pool_sign, PoolSign};
use crate::vp::{charge_ok, expired, spec_validate_tx, state_checks_pass, GasMeter,
    ProofVerification};

verus! {

/// Round-trip validity: a transaction whose transparent bundle and shielded
/// value balance exactly reproduce a consistent storage diff — every state
/// check passes and the pool closes at zero — and whose proofs verified
/// within the gas budget, is accepted.
pub proof fn lemma_consistent_transaction_accepted(
    ctx: VpCtx,
    tx: Transaction,
    keys: Seq<ChangedKey>,
    proof_report: ProofVerification,
    gas: GasMeter,
)
    requires
        state_checks_pass(ctx, tx, keys),
        charge_ok(gas, proof_report.gas_cost),
        proof_report.accepted,
    ensures
        spec_validate_tx(ctx, tx, keys, proof_report, gas) == Ok::<(), Error>(()),
{
}

/// Acceptance characterized: a transaction is accepted exactly when every
/// state check passes, the metered proof-verification cost fits the gas
/// budget, and the proofs verified.
pub proof fn lemma_acceptance_characterized(
    ctx: VpCtx,
    tx: Transaction,
    keys: Seq<ChangedKey>,
    proof_report: ProofVerification,
    gas: GasMeter,
)
    ensures
        (spec_validate_tx(ctx, tx, keys, proof_report, gas) == Ok::<(), Error>(())) <==> (
        state_checks_pass(ctx, tx, keys) && charge_ok(gas, proof_report.gas_cost)
            && proof_report.accepted),
{
}

/// The nullifier check passes exactly when no nullifier repeats or was known
/// before, every revealed nullifier was committed empty, and every changed
/// nullifier key is declared by some spend.
pub proof fn lemma_nullifier_check_characterized(
    ctx: VpCtx,
    keys: Seq<ChangedKey>,
    tx: Transaction,
)
    ensures
        (nullifiers_spec(ctx, keys, tx) is Ok) <==> {
            &&& forall|i: int|
                0 <= i < tx.spends().len() ==> !double_spend_at(ctx, tx.spends(), i)
            &&& forall|i: int|
                0 <= i < tx.spends().len() ==> ctx.post.nullifier_committed_empty(
                    (#[trigger] tx.spends()[i]).nullifier@,
                )
            &&& !crate::sapling::stray_nullifier_write(keys, tx.spends())
        },
{
    let spends = tx.spends();
    if exists|i: int| 0 <= i < spends.len() && spend_fault(ctx, spends, i) {
        let i = choose|i: int| 0 <= i < spends.len() && spend_fault(ctx, spends, i);
        assert(double_spend_at(ctx, spends, i) || !ctx.post.nullifier_committed_empty(
            spends[i].nullifier@,
        ));
    } else {
        assert forall|i: int| 0 <= i < spends.len()
            implies !double_spend_at(ctx, spends, i) && ctx.post.nullifier_committed_empty(
                (#[trigger] spends[i]).nullifier@,
            ) by {
            assert(!spend_fault(ctx, spends, i));
        }
    }
}

/// Among the faulty spends there is a first one.
proof fn lemma_first_fault_exists(ctx: VpCtx, spends: Seq<SpendDescription>, i: int)
    requires
        0 <= i < spends.len(),
        spend_fault(ctx, spends, i),
    ensures
        exists|m: int|
            0 <= m < spends.len() && #[trigger] spend_fault(ctx, spends, m) && forall|j: int|
                0 <= j < m ==> !spend_fault(ctx, spends, j),
    decreases i,
{
    if forall|j: int| 0 <= j < i ==> !spend_fault(ctx, spends, j) {
        assert(spend_fault(ctx, spends, i) && forall|j: int|
            0 <= j < i ==> !spend_fault(ctx, spends, j));
    } else {
        let j = choose|j: int| 0 <= j < i && spend_fault(ctx, spends, j);
        lemma_first_fault_exists(ctx, spends, j);
    }
}

/// No double spend at the nullifier check: a nullifier revealed twice in one
/// transaction, or already present in pre-state, fails the check with a
/// double-spend error — whatever else holds of the bundle — provided every
/// revealed nullifier was committed empty (a spend whose nullifier was not
/// committed can fail with that error first).
pub proof fn lemma_double_spend_fails_nullifier_check(
    ctx: VpCtx,
    keys: Seq<ChangedKey>,
    tx: Transaction,
    i: int,
)
    requires
        0 <= i < tx.spends().len(),
        double_spend_at(ctx, tx.spends(), i),
        forall|j: int|
            0 <= j < tx.spends().len() ==> ctx.post.nullifier_committed_empty(
                (#[trigger] tx.spends()[j]).nullifier@,
            ),
    ensures
        nullifiers_spec(ctx, keys, tx) == Err::<(), Error>(Error::DoubleSpend),
{
    let spends = tx.spends();
    lemma_first_fault_exists(ctx, spends, i);
    let m = choose|m: int|
        0 <= m < spends.len() && spend_fault(ctx, spends, m) && forall|j: int|
            0 <= j < m ==> !spend_fault(ctx, spends, j);
    assert(ctx.post.nullifier_committed_empty(spends[m].nullifier@));
    assert(double_spend_at(ctx, spends, m));
    crate::sapling::lemma_nullifiers_spec_fault(ctx, keys, tx, m);
}

/// No double spend: under the checks that run earlier — expiry, key
/// authorization, anchors — a double-spent nullifier rejects the whole
/// transaction with a double-spend error.
pub proof fn lemma_double_spend_rejected(
    ctx: VpCtx,
    tx: Transaction,
    keys: Seq<ChangedKey>,
    proof_report: ProofVerification,
    gas: GasMeter,
    i: int,
)
    requires
        !expired(ctx, tx),
        extract_spec(ctx, keys) is Ok,
        spend_anchors_spec(ctx.pre, tx) is Ok,
        convert_anchors_spec(ctx.pre, tx) is Ok,
        0 <= i < tx.spends().len(),
        double_spend_at(ctx, tx.spends(), i),
        forall|j: int|
            0 <= j < tx.spends().len() ==> ctx.post.nullifier_committed_empty(
                (#[trigger] tx.spends()[j]).nullifier@,
            ),
    ensures
        spec_validate_tx(ctx, tx, keys, proof_report, gas) == Err::<(), Error>(
            Error::DoubleSpend,
        ),
{
    lemma_double_spend_fails_nullifier_check(ctx, keys, tx, i);
}

/// Tree integrity: under the checks that run earlier, a post-state tree that
/// is not the pre-state tree with exactly the bundle's output commitments
/// appended, in order, rejects with a tree mismatch.
pub proof fn lemma_tree_mismatch_rejected(
    ctx: VpCtx,
    tx: Transaction,
    keys: Seq<ChangedKey>,
    proof_report: ProofVerification,
    gas: GasMeter,
)
    requires
        !expired(ctx, tx),
        extract_spec(ctx, keys) is Ok,
        spend_anchors_spec(ctx.pre, tx) is Ok,
        convert_anchors_spec(ctx.pre, tx) is Ok,
        nullifiers_spec(ctx, keys, tx) is Ok,
        ctx.pre.tree is Some,
        ctx.post.tree is Some,
        ctx.post.tree->Some_0@ != crate::sapling::appended_leaves(
            ctx.pre.tree->Some_0@,
            tx.outputs(),
        ),
    ensures
        spec_validate_tx(ctx, tx, keys, proof_report, gas) == Err::<(), Error>(
            Error::CommitmentTreeMismatch,
        ),
{
    assert(tree_update_spec(ctx, tx) == Err::<(), Error>(Error::CommitmentTreeMismatch));
}

/// Anchor freshness, spends: under expiry and key authorization, a spend
/// anchor not found in the pre-state anchor history rejects with an invalid
/// spend anchor.
pub proof fn lemma_stale_spend_anchor_rejected(
    ctx: VpCtx,
    tx: Transaction,
    keys: Seq<ChangedKey>,
    proof_report: ProofVerification,
    gas: GasMeter,
    i: int,
)
    requires
        !expired(ctx, tx),
        extract_spec(ctx, keys) is Ok,
        0 <= i < tx.spends().len(),
        !ctx.pre.has_anchor(tx.spends()[i].anchor@),
    ensures
        spec_validate_tx(ctx, tx, keys, proof_report, gas) == Err::<(), Error>(
            Error::InvalidSpendAnchor,
        ),
{
    assert(!crate::sapling::all_spend_anchors_valid(ctx.pre, tx));
}

/// Anchor freshness, converts: under expiry, key authorization and valid
/// spend anchors, a convert description whose anchor differs from the
/// current conversion-tree anchor rejects with an invalid convert anchor.
pub proof fn lemma_wrong_convert_anchor_rejected(
    ctx: VpCtx,
    tx: Transaction,
    keys: Seq<ChangedKey>,
    proof_report: ProofVerification,
    gas: GasMeter,
    i: int,
)
    requires
        !expired(ctx, tx),
        extract_spec(ctx, keys) is Ok,
        spend_anchors_spec(ctx.pre, tx) is Ok,
        ctx.pre.convert_anchor is Some,
        0 <= i < tx.converts().len(),
        tx.converts()[i].anchor@ != ctx.pre.convert_anchor->Some_0@,
    ensures
        spec_validate_tx(ctx, tx, keys, proof_report, gas) == Err::<(), Error>(
            Error::InvalidConvertAnchor,
        ),
{
    assert(!crate::sapling::all_convert_anchors_match(tx, ctx.pre.convert_anchor->Some_0@));
}

/// Zero-sum pool, surplus: under the checks that run earlier, a reconciled
/// pool that closes strictly above zero rejects as a surplus — transparent
/// inputs exceeding outputs plus the shielded value balance would pay an
/// implicit fee into the pool.
pub proof fn lemma_pool_surplus_rejected(
    ctx: VpCtx,
    tx: Transaction,
    keys: Seq<ChangedKey>,
    proof_report: ProofVerification,
    gas: GasMeter,
)
    requires
        !expired(ctx, tx),
        extract_spec(ctx, keys) is Ok,
        spend_anchors_spec(ctx.pre, tx) is Ok,
        convert_anchors_spec(ctx.pre, tx) is Ok,
        nullifiers_spec(ctx, keys, tx) is Ok,
        tree_update_spec(ctx, tx) is Ok,
        transparent_bundle_spec(
            ctx,
            tx,
            extract_spec(ctx, keys)->Ok_0.0,
            extract_spec(ctx, keys)->Ok_0.1,
            tx.value_balance.as_map(),
        ) is Ok,
        pool_sign(
            transparent_bundle_spec(
                ctx,
                tx,
                extract_spec(ctx, keys)->Ok_0.0,
                extract_spec(ctx, keys)->Ok_0.1,
                tx.value_balance.as_map(),
            )->Ok_0,
        ) == PoolSign::Positive,
    ensures
        spec_validate_tx(ctx, tx, keys, proof_report, gas) == Err::<(), Error>(
            Error::NonZeroTransparentPoolSurplus,
        ),
{
}

/// Zero-sum pool, deficit: under the checks that run earlier, a reconciled
/// pool that closes below zero — or incomparable with zero — rejects as a
/// deficit: value would be created from nothing, often a transaction built
/// against an earlier epoch.
pub proof fn lemma_pool_deficit_rejected(
    ctx: VpCtx,
    tx: Transaction,
    keys: Seq<ChangedKey>,
    proof_report: ProofVerification,
    gas: GasMeter,
)
    requires
        !expired(ctx, tx),
        extract_spec(ctx, keys) is Ok,
        spend_anchors_spec(ctx.pre, tx) is Ok,
        convert_anchors_spec(ctx.pre, tx) is Ok,
        nullifiers_spec(ctx, keys, tx) is Ok,
        tree_update_spec(ctx, tx) is Ok,
        transparent_bundle_spec(
            ctx,
            tx,
            extract_spec(ctx, keys)->Ok_0.0,
            extract_spec(ctx, keys)->Ok_0.1,
            tx.value_balance.as_map(),
        ) is Ok,
        pool_sign(
            transparent_bundle_spec(
                ctx,
                tx,
                extract_spec(ctx, keys)->Ok_0.0,
                extract_spec(ctx, keys)->Ok_0.1,
                tx.value_balance.as_map(),
            )->Ok_0,
        ) == PoolSign::Negative || pool_sign(
            transparent_bundle_spec(
                ctx,
                tx,
                extract_spec(ctx, keys)->Ok_0.0,
                extract_spec(ctx, keys)->Ok_0.1,
                tx.value_balance.as_map(),
            )->Ok_0,
        ) == PoolSign::Mixed,
    ensures
        spec_validate_tx(ctx, tx, keys, proof_report, gas) == Err::<(), Error>(
            Error::NonZeroTransparentPoolDeficit,
        ),
{
}

/// Unclaimed entries: under the checks that run earlier, when every token's
/// pass succeeds but some transparent input or output was claimed by none of
/// them, the transaction rejects with unclaimed bundle entries.
pub proof fn lemma_unclaimed_entries_rejected(
    ctx: VpCtx,
    tx: Transaction,
    keys: Seq<ChangedKey>,
    proof_report: ProofVerification,
    gas: GasMeter,
)
    requires
        !expired(ctx, tx),
        extract_spec(ctx, keys) is Ok,
        spend_anchors_spec(ctx.pre, tx) is Ok,
        convert_anchors_spec(ctx.pre, tx) is Ok,
        nullifiers_spec(ctx, keys, tx) is Ok,
        tree_update_spec(ctx, tx) is Ok,
        tx.transparent_bundle is Some,
        tokens_fold(
            ctx,
            extract_spec(ctx, keys)->Ok_0.1,
            tx.transparent_bundle->Some_0,
            extract_spec(ctx, keys)->Ok_0.0,
            0,
            ReconState {
                vin_claimed: Seq::new(tx.transparent_bundle->Some_0.vin@.len(), |i: int| false),
                vout_claimed: Seq::new(tx.transparent_bundle->Some_0.vout@.len(), |i: int| false),
                pool: tx.value_balance.as_map(),
            },
        ) is Ok,
        !(all_true(
            tokens_fold(
                ctx,
                extract_spec(ctx, keys)->Ok_0.1,
                tx.transparent_bundle->Some_0,
                extract_spec(ctx, keys)->Ok_0.0,
                0,
                ReconState {
                    vin_claimed: Seq::new(
                        tx.transparent_bundle->Some_0.vin@.len(),
                        |i: int| false,
                    ),
                    vout_claimed: Seq::new(
                        tx.transparent_bundle->Some_0.vout@.len(),
                        |i: int| false,
                    ),
                    pool: tx.value_balance.as_map(),
                },
            )->Ok_0.vin_claimed,
        ) && all_true(
            tokens_fold(
                ctx,
                extract_spec(ctx, keys)->Ok_0.1,
                tx.transparent_bundle->Some_0,
                extract_spec(ctx, keys)->Ok_0.0,
                0,
                ReconState {
                    vin_claimed: Seq::new(
                        tx.transparent_bundle->Some_0.vin@.len(),
                        |i: int| false,
                    ),
                    vout_claimed: Seq::new(
                        tx.transparent_bundle->Some_0.vout@.len(),
                        |i: int| false,
                    ),
                    pool: tx.value_balance.as_map(),
                },
            )->Ok_0.vout_claimed,
        )),
    ensures
        spec_validate_tx(ctx, tx, keys, proof_report, gas) == Err::<(), Error>(
            Error::UnclaimedBundleEntries,
        ),
{
}

/// Backdating rejection: an unclaimed transparent input whose asset type is
/// absent from the conversion registry but matches an unepoched variant of
/// the token under validation, while the epoched variant for the current
/// epoch does exist in the registry, fails its pass with a backdated-asset
/// error — even though the raw asset type decodes successfully.
pub proof fn lemma_backdated_input_rejected(
    ctx: VpCtx,
    token: Seq<u8>,
    denom: u8,
    st: ReconState,
    deltas: Map<Seq<u8>, SignedAmount>,
    entry: TransparentEntry,
    i: int,
)
    requires
        pool_add(st.pool, entry.asset_type@, entry.value as int) is Some,
        !ctx.conversion.contains_key(entry.asset_type@),
        unepoched_map(token, denom).dom().contains(entry.asset_type@),
        ctx.conversion.contains_key(
            asset_type_of(
                token,
                denom,
                unepoched_map(token, denom)[entry.asset_type@],
                Some(ctx.epoch),
            ),
        ),
    ensures
        entry_step(ctx, token, denom, st, deltas, entry, i, true) == Err::<
            (ReconState, Map<Seq<u8>, SignedAmount>),
            Error,
        >(Error::BackdatedAssetType),
{
}

} // verus!
