//! Why a transaction is rejected.
//!
//! Every failure is a terminal rejection of the whole transaction: there is
//! no partial acceptance and no retry inside the predicate. The host layer
//! attaches the offending key, index, token or amounts when it surfaces one
//! of these to a client.

use vstd::prelude::*;

verus! {

/// The reasons this predicate rejects a transaction.
#[derive(Clone, Copy, PartialEq, Eq, Structural, Debug)]
pub enum Error {
    /// An expected storage entry is absent: the commitment tree, the current
    /// conversion anchor under convert descriptions, or a token's
    /// denomination.
    StorageReadFailure,
    /// A key in the pool's namespace that is not on the allow-list was
    /// modified.
    UnauthorizedKeyWrite,
    /// More than one pin key was written, or a pin records a position other
    /// than the transaction's own.
    InvalidPinKey,
    /// A nullifier was revealed twice in one transaction, or had already
    /// been revealed in history.
    DoubleSpend,
    /// A revealed nullifier did not end up committed, was a temporary or
    /// deleted write, or carries a payload.
    UncommittedOrPayloadedNullifier,
    /// A nullifier key was changed that no spend description declares.
    UnexpectedNullifierWrite,
    /// A spend description's anchor is not in the published anchor history.
    InvalidSpendAnchor,
    /// A convert description's anchor differs from the current
    /// conversion-tree anchor.
    InvalidConvertAnchor,
    /// The post-state commitment tree is not the pre-state tree with exactly
    /// the bundle's output commitments appended, or the appends do not fit.
    CommitmentTreeMismatch,
    /// A pseudo-asset identifier could not be derived from its defining
    /// data. The byte-level codec used here is total, so this predicate
    /// never produces it; it remains part of the error interface for hosts
    /// whose codec can fail.
    AssetDecodeFailure,
    /// An unepoched transparent input shadows an epoched asset that exists
    /// in the conversion registry.
    BackdatedAssetType,
    /// An overflow in balance or pool accounting; nothing here wraps.
    ArithmeticOverflow,
    /// The deltas implied by the transparent bundle differ from the changes
    /// found in storage, or pool balances changed with no transparent bundle
    /// to justify them.
    BundleStorageMismatch,
    /// A transparent input or output was claimed by no token's
    /// reconciliation pass.
    UnclaimedBundleEntries,
    /// The transparent value pool ended below zero (or incomparable with
    /// zero): value would be created from nothing, often a transaction built
    /// against an earlier epoch.
    NonZeroTransparentPoolDeficit,
    /// The transparent value pool ended above zero: value would leave the
    /// pool as an implicit fee, which the pool forbids.
    NonZeroTransparentPoolSurplus,
    /// The transaction expired before the block being built.
    TransactionExpired,
    /// The zero-knowledge proofs did not verify.
    ProofVerificationFailure,
    /// The gas budget ran out while verifying the proofs.
    OutOfGas,
}

} // verus!
