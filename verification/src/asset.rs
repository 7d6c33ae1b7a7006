//! The pseudo-asset codec and the conversion registry.
//!
//! A pseudo-asset identifier is the hash of an unambiguous encoding of
//! (token, denomination, digit position, optional epoch). The conversion
//! registry, read-only to this predicate, maps identifiers back to that
//! defining data; identifiers absent from it may still be recognized as
//! unepoched variants of a token under validation.

use vstd::prelude::*;
use crate::amount::MaspDigitPos;
use crate::bytes::{push_bytes, push_u64_le, u64_le};
use crate::hashes::{sha256, sha256_of};
use crate::kv::KvMap;
use crate::types::{Address, AssetType};

verus! {

/// The bytes hashed to derive a pseudo-asset identifier: the token length,
/// the token, the denomination, the digit tag, and the epoch tag.
pub open spec fn asset_preimage(
    token: Seq<u8>,
    denom: u8,
    digit: MaspDigitPos,
    epoch: Option<u64>,
) -> Seq<u8> {
    u64_le(token.len() as u64) + token + seq![denom, digit.pos() as u8]
        + match epoch {
            None => seq![0u8],
            Some(e) => seq![1u8] + u64_le(e),
        }
}

/// The identifier of the pseudo-asset for `value` digits of `token` at digit
/// position `digit`, tagged with `epoch` when one is given.
#[verifier::opaque]
pub open spec fn asset_type_of(
    token: Seq<u8>,
    denom: u8,
    digit: MaspDigitPos,
    epoch: Option<u64>,
) -> Seq<u8> {
    sha256_of(asset_preimage(token, denom, digit, epoch))
}

/// Deterministically derives the pseudo-asset identifier from its defining
/// data.
pub fn encode_asset_type(
    token: &Address,
    denom: u8,
    digit: MaspDigitPos,
    epoch: Option<u64>,
) -> (r: AssetType)
    ensures
        r@ == asset_type_of(token@, denom, digit, epoch),
{
    let mut preimage: Vec<u8> = Vec::new();
    push_u64_le(&mut preimage, token.bytes.len() as u64);
    push_bytes(&mut preimage, &token.bytes);
    preimage.push(denom);
    preimage.push(digit.tag());
    match epoch {
        None => preimage.push(0),
        Some(e) => {
            preimage.push(1);
            push_u64_le(&mut preimage, e);
        },
    }
    proof {
        reveal(crate::asset::asset_type_of);
        assert(preimage@ =~= asset_preimage(token@, denom, digit, epoch));
    }
    let id = sha256(&preimage);
    AssetType { id }
}

/// What the conversion registry records for an identifier: the token, its
/// denomination, the digit position, and the epoch the asset was minted
/// under.
pub struct RegisteredAsset {
    pub token: Address,
    pub denom: u8,
    pub digit: MaspDigitPos,
    pub epoch: u64,
}

/// The candidate unepoched identifiers of a token at a denomination: one per
/// digit position, each mapped to its digit. The token and denomination are
/// those of the pass that built the table.
pub open spec fn unepoched_map(token: Seq<u8>, denom: u8) -> Map<Seq<u8>, MaspDigitPos> {
    Map::<Seq<u8>, MaspDigitPos>::empty()
        .insert(asset_type_of(token, denom, MaspDigitPos::Zero, None), MaspDigitPos::Zero)
        .insert(asset_type_of(token, denom, MaspDigitPos::One, None), MaspDigitPos::One)
        .insert(asset_type_of(token, denom, MaspDigitPos::Two, None), MaspDigitPos::Two)
        .insert(asset_type_of(token, denom, MaspDigitPos::Three, None), MaspDigitPos::Three)
}

/// Builds the table of unepoched identifiers used to recognize legacy assets
/// of `token`.
pub fn unepoched_tokens(token: &Address, denom: u8) -> (r: KvMap<MaspDigitPos>)
    ensures
        r.wf(),
        r.as_map() == unepoched_map(token@, denom),
{
    let mut r: KvMap<MaspDigitPos> = KvMap::new();
    let a0 = encode_asset_type(token, denom, MaspDigitPos::Zero, None);
    r.insert(a0.id, MaspDigitPos::Zero);
    let a1 = encode_asset_type(token, denom, MaspDigitPos::One, None);
    r.insert(a1.id, MaspDigitPos::One);
    let a2 = encode_asset_type(token, denom, MaspDigitPos::Two, None);
    r.insert(a2.id, MaspDigitPos::Two);
    let a3 = encode_asset_type(token, denom, MaspDigitPos::Three, None);
    r.insert(a3.id, MaspDigitPos::Three);
    r
}

} // verus!
