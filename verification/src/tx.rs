//! The shielded transaction, as the typed accessors this predicate reads.
//!
//! Beyond these fields the transaction object is opaque: proof data is
//! consumed elsewhere, as an external capability.

use vstd::prelude::*;
use crate::types::{Anchor, AssetType, NoteCommitment, Nullifier};
use crate::value_sum::ValueSum;

verus! {

/// A spend description: reveals a nullifier and names the anchor its
/// membership proof was built against.
pub struct SpendDescription {
    pub nullifier: Nullifier,
    pub anchor: Anchor,
}

/// An output description: commits to a newly created note.
pub struct OutputDescription {
    pub cmu: NoteCommitment,
}

/// A convert description: names the conversion-tree anchor it was built
/// against.
pub struct ConvertDescription {
    pub anchor: Anchor,
}

/// The cryptographic portion of a shielded transaction.
pub struct SaplingBundle {
    pub shielded_spends: Vec<SpendDescription>,
    pub shielded_outputs: Vec<OutputDescription>,
    pub shielded_converts: Vec<ConvertDescription>,
}

/// One transparent input or output: so many units of a pseudo-asset, owned
/// by the identity behind a 20-byte hash.
pub struct TransparentEntry {
    pub asset_type: AssetType,
    pub value: u64,
    pub address: Vec<u8>,
}

/// The plaintext portion of a shielded transaction: ordered inputs moving
/// value into the pool and ordered outputs moving value out of it.
pub struct TransparentBundle {
    pub vin: Vec<TransparentEntry>,
    pub vout: Vec<TransparentEntry>,
}

/// A shielded transaction, reduced to the typed accessors the predicate
/// consumes.
pub struct Transaction {
    pub expiry_height: u64,
    pub value_balance: ValueSum,
    pub sapling_bundle: Option<SaplingBundle>,
    pub transparent_bundle: Option<TransparentBundle>,
}

impl Transaction {
    /// The spend descriptions, an empty sequence when there is no sapling
    /// bundle.
    pub open spec fn spends(self) -> Seq<SpendDescription> {
        match self.sapling_bundle {
            Some(b) => b.shielded_spends@,
            None => Seq::empty(),
        }
    }

    /// The output descriptions, an empty sequence when there is no sapling
    /// bundle.
    pub open spec fn outputs(self) -> Seq<OutputDescription> {
        match self.sapling_bundle {
            Some(b) => b.shielded_outputs@,
            None => Seq::empty(),
        }
    }

    /// The convert descriptions, an empty sequence when there is no sapling
    /// bundle.
    pub open spec fn converts(self) -> Seq<ConvertDescription> {
        match self.sapling_bundle {
            Some(b) => b.shielded_converts@,
            None => Seq::empty(),
        }
    }
}

} // verus!
