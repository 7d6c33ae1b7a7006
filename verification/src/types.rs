//! The plain data the predicate works over: identities, opaque identifiers
//! and the position of the transaction being validated.
//!
//! Addresses and the cryptographic identifiers carried by a shielded bundle
//! (nullifiers, anchors, note commitments, asset identifiers) are opaque byte
//! strings to this predicate: it only ever compares them, hashes them, or
//! looks them up.

use vstd::prelude::*;
use crate::bytes::copy_bytes;

verus! {

/// A ledger identity in its canonical serialized form: a token, an account,
/// or one of the distinguished internal identities (the pool itself, the
/// minted-supply sentinel).
pub struct Address {
    pub bytes: Vec<u8>,
}

impl View for Address {
    type V = Seq<u8>;

    open spec fn view(&self) -> Seq<u8> {
        self.bytes@
    }
}

impl Address {
    pub fn duplicate(&self) -> (r: Address)
        ensures
            r@ == self@,
    {
        Address { bytes: copy_bytes(&self.bytes) }
    }
}

/// A one-time value revealed when a note is spent; it must never repeat,
/// neither across history nor within one transaction.
pub struct Nullifier {
    pub bytes: Vec<u8>,
}

impl View for Nullifier {
    type V = Seq<u8>;

    open spec fn view(&self) -> Seq<u8> {
        self.bytes@
    }
}

/// A root of the note-commitment tree at some point in its history, or the
/// current root of the conversion tree.
pub struct Anchor {
    pub bytes: Vec<u8>,
}

impl View for Anchor {
    type V = Seq<u8>;

    open spec fn view(&self) -> Seq<u8> {
        self.bytes@
    }
}

/// The commitment to a note created by an output description.
pub struct NoteCommitment {
    pub bytes: Vec<u8>,
}

impl View for NoteCommitment {
    type V = Seq<u8>;

    open spec fn view(&self) -> Seq<u8> {
        self.bytes@
    }

}

impl NoteCommitment {
    pub fn duplicate(&self) -> (r: NoteCommitment)
        ensures
            r@ == self@,
    {
        NoteCommitment { bytes: copy_bytes(&self.bytes) }
    }
}

/// A derived pseudo-asset identifier binding a token, its denomination, one
/// digit position, and optionally an epoch.
pub struct AssetType {
    pub id: Vec<u8>,
}

impl View for AssetType {
    type V = Seq<u8>;

    open spec fn view(&self) -> Seq<u8> {
        self.id@
    }
}

/// The position a transaction occupies in the chain: block height and index
/// within the block. A pin entry records where the transaction that wrote it
/// was expected to execute.
#[derive(Clone, Copy, PartialEq, Eq, Structural, Debug)]
pub struct IndexedTx {
    pub height: u64,
    pub index: u32,
}

/// Who holds a balance touched by a shielded action: a named identity, or
/// the minted-supply sentinel of a token.
pub enum ShieldedActionOwner {
    Owner(Address),
    Minted,
}

} // verus!
