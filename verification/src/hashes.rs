//! The two digests this predicate relies on.
//!
//! Counterpart identities are keyed in the transparent bundle by the 20-byte
//! RIPEMD-160-of-SHA-256 hash of their serialized form, and pseudo-asset
//! identifiers are derived by hashing their defining data. Both digests are
//! opaque functions of their input; contracts name them and promise nothing
//! about their bits.

use vstd::prelude::*;
use crate::types::Address;

verus! {

pub uninterp spec fn sha256_of(data: Seq<u8>) -> Seq<u8>;

pub uninterp spec fn ripemd160_of(data: Seq<u8>) -> Seq<u8>;

/// Relies on `sha2::Sha256` through `Digest::digest`: a 32-byte digest that
/// is a function of the input bytes alone.
#[verifier::external_body]
pub(crate) fn sha256(data: &Vec<u8>) -> (r: Vec<u8>)
    ensures
        r@ == sha256_of(data@),
        r@.len() == 32,
{
    <sha2::Sha256 as sha2::Digest>::digest(data.as_slice()).to_vec()
}

/// Relies on `ripemd::Ripemd160` through `Digest::digest`: a 20-byte digest
/// that is a function of the input bytes alone.
#[verifier::external_body]
pub(crate) fn ripemd160(data: &Vec<u8>) -> (r: Vec<u8>)
    ensures
        r@ == ripemd160_of(data@),
        r@.len() == 20,
{
    <ripemd::Ripemd160 as ripemd::Digest>::digest(data.as_slice()).to_vec()
}

/// The 20-byte hash under which an identity appears in a transparent bundle.
pub open spec fn addr_hash_of(identity: Seq<u8>) -> Seq<u8> {
    ripemd160_of(sha256_of(identity))
}

/// Hashes a serialized identity down to the 20 bytes the transparent bundle
/// carries for it.
pub fn address_hash(addr: &Address) -> (r: Vec<u8>)
    ensures
        r@ == addr_hash_of(addr@),
        r@.len() == 20,
{
    let inner = sha256(&addr.bytes);
    ripemd160(&inner)
}

} // verus!
