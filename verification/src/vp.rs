//! The validity predicate itself: one pass over a transaction, in a fixed
//! order, every failure a terminal rejection.
//!
//! The order is part of the contract: expiry first, then key authorization
//! and balance extraction, the sapling structural checks (spend anchors,
//! convert anchors, nullifiers, tree update), the transparent bundle
//! reconciliation, the zero-pool invariant, and proof verification last,
//! since it is the most expensive step and is metered against the gas
//! budget. Proof verification itself is an external capability: the host
//! runs it and hands its report in; this predicate charges the metered cost
//! and folds the verdict into the result.

use vstd::prelude::*;
use crate::balance::extract_spec;
use crate::error::Error;
use crate::sapling::{convert_anchors_spec, nullifiers_spec, spend_anchors_spec, tree_update_spec};
use crate::state::{ChangedKey, MaspVp, VpCtx};
use crate::transparent::transparent_bundle_spec;
use crate::tx::Transaction;
use crate::types::Address;
use crate::value_sum::{pool_sign, PoolSign};

verus! {

/// The cost-accounting context the dispatcher threads through validation;
/// exceeding the limit aborts the transaction.
pub struct GasMeter {
    pub limit: u64,
    pub used: u64,
}

/// Whether `g` can still absorb `cost`.
pub open spec fn charge_ok(g: GasMeter, cost: u64) -> bool {
    g.used + cost <= g.limit
}

impl GasMeter {
    pub open spec fn wf(self) -> bool {
        self.used <= self.limit
    }

    /// Charges `cost` units; past the limit the meter is left unchanged and
    /// the transaction is out of gas.
    pub fn charge(&mut self, cost: u64) -> (r: Result<(), Error>)
        requires
            old(self).wf(),
        ensures
            final(self).wf(),
            final(self).limit == old(self).limit,
            charge_ok(*old(self), cost) ==> r == Ok::<(), Error>(())
                && final(self).used == old(self).used + cost,
            !charge_ok(*old(self), cost) ==> r == Err::<(), Error>(Error::OutOfGas)
                && *final(self) == *old(self),
    {
        if cost <= self.limit - self.used {
            self.used += cost;
            Ok(())
        } else {
            Err(Error::OutOfGas)
        }
    }
}

/// The external proof verifier's report: the gas it metered and whether the
/// zero-knowledge proofs verified.
#[derive(Clone, Copy, PartialEq, Eq, Structural, Debug)]
pub struct ProofVerification {
    pub gas_cost: u64,
    pub accepted: bool,
}

/// The transaction expired before the block being built.
pub open spec fn expired(ctx: VpCtx, tx: Transaction) -> bool {
    ctx.block_height > tx.expiry_height
}

/// What one validation pass returns, phase by phase in the fixed order.
pub open spec fn spec_validate_tx(
    ctx: VpCtx,
    tx: Transaction,
    keys: Seq<ChangedKey>,
    proof_report: ProofVerification,
    gas: GasMeter,
) -> Result<(), Error> {
    if expired(ctx, tx) {
        Err(Error::TransactionExpired)
    } else {
        match extract_spec(ctx, keys) {
            Err(e) => Err(e),
            Ok(cb) => match spend_anchors_spec(ctx.pre, tx) {
                Err(e) => Err(e),
                Ok(()) => match convert_anchors_spec(ctx.pre, tx) {
                    Err(e) => Err(e),
                    Ok(()) => match nullifiers_spec(ctx, keys, tx) {
                        Err(e) => Err(e),
                        Ok(()) => match tree_update_spec(ctx, tx) {
                            Err(e) => Err(e),
                            Ok(()) => match transparent_bundle_spec(
                                ctx,
                                tx,
                                cb.0,
                                cb.1,
                                tx.value_balance.as_map(),
                            ) {
                                Err(e) => Err(e),
                                Ok(pool) => match pool_sign(pool) {
                                    PoolSign::Negative => Err(
                                        Error::NonZeroTransparentPoolDeficit,
                                    ),
                                    PoolSign::Mixed => Err(Error::NonZeroTransparentPoolDeficit),
                                    PoolSign::Positive => Err(
                                        Error::NonZeroTransparentPoolSurplus,
                                    ),
                                    PoolSign::Zero => {
                                        if !charge_ok(gas, proof_report.gas_cost) {
                                            Err(Error::OutOfGas)
                                        } else if !proof_report.accepted {
                                            Err(Error::ProofVerificationFailure)
                                        } else {
                                            Ok(())
                                        }
                                    },
                                },
                            },
                        },
                    },
                },
            },
        }
    }
}

/// Every check before proof verification passes: the transaction is not
/// expired, its key writes and pin are authorized, its anchors, nullifiers
/// and tree update are valid, and its transparent bundle reconciles to a
/// pool of exactly zero.
pub open spec fn state_checks_pass(ctx: VpCtx, tx: Transaction, keys: Seq<ChangedKey>) -> bool {
    &&& !expired(ctx, tx)
    &&& extract_spec(ctx, keys) matches Ok(cb) && {
        &&& spend_anchors_spec(ctx.pre, tx) is Ok
        &&& convert_anchors_spec(ctx.pre, tx) is Ok
        &&& nullifiers_spec(ctx, keys, tx) is Ok
        &&& tree_update_spec(ctx, tx) is Ok
        &&& transparent_bundle_spec(ctx, tx, cb.0, cb.1, tx.value_balance.as_map())
            matches Ok(pool) && pool_sign(pool) == PoolSign::Zero
    }
}

impl MaspVp {
    /// Validates one transaction against the ambient context, the changed
    /// keys, and the external proof verifier's report, charging the metered
    /// verification cost to `gas`.
    pub fn validate_tx(
        &self,
        tx_data: &Transaction,
        keys_changed: &Vec<ChangedKey>,
        _verifiers: &Vec<Address>,
        proof_report: &ProofVerification,
        gas: &mut GasMeter,
    ) -> (r: Result<(), Error>)
        requires
            self.ctx.wf(),
            tx_data.value_balance.wf(),
            old(gas).wf(),
        ensures
            final(gas).wf(),
            final(gas).limit == old(gas).limit,
            r == spec_validate_tx(self.ctx, *tx_data, keys_changed@, *proof_report, *old(gas)),
            state_checks_pass(self.ctx, *tx_data, keys_changed@) && charge_ok(
                *old(gas),
                proof_report.gas_cost,
            ) ==> final(gas).used == old(gas).used + proof_report.gas_cost,
            !(state_checks_pass(self.ctx, *tx_data, keys_changed@) && charge_ok(
                *old(gas),
                proof_report.gas_cost,
            )) ==> *final(gas) == *old(gas),
    {
        if self.ctx.block_height > tx_data.expiry_height {
            return Err(Error::TransactionExpired);
        }

        // The declared shielded value balance opens the transparent pool.
        let mut transparent_tx_pool = tx_data.value_balance.duplicate();

        // Key authorization and balance extraction.
        let changed_balances = match self.validate_state_and_get_transfer_data(keys_changed) {
            Ok(cb) => cb,
            Err(e) => {
                return Err(e);
            },
        };

        // Structural checks on the sapling bundle.
        if let Err(e) = self.valid_spend_descriptions_anchor(tx_data) {
            return Err(e);
        }
        if let Err(e) = self.valid_convert_descriptions_anchor(tx_data) {
            return Err(e);
        }
        if let Err(e) = self.valid_nullifiers_reveal(keys_changed, tx_data) {
            return Err(e);
        }
        if let Err(e) = self.valid_note_commitment_update(tx_data) {
            return Err(e);
        }

        // The transparent bundle, when present, must account for every
        // changed balance.
        if let Err(e) = self.validate_transparent_bundle(
            tx_data,
            &changed_balances,
            &mut transparent_tx_pool,
        ) {
            return Err(e);
        }

        // The transparent value pool must close at exactly zero.
        match transparent_tx_pool.cmp_zero() {
            PoolSign::Negative => {
                return Err(Error::NonZeroTransparentPoolDeficit);
            },
            PoolSign::Mixed => {
                return Err(Error::NonZeroTransparentPoolDeficit);
            },
            PoolSign::Positive => {
                return Err(Error::NonZeroTransparentPoolSurplus);
            },
            PoolSign::Zero => {},
        }

        // Proof verification last: charge its metered cost, then fold in the
        // verdict.
        if let Err(e) = gas.charge(proof_report.gas_cost) {
            return Err(e);
        }
        if !proof_report.accepted {
            return Err(Error::ProofVerificationFailure);
        }
        Ok(())
    }
}

} // verus!
