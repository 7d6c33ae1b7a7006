//! Tests for the building blocks: identity hashing, the asset codec, the
//! byte-keyed map, the commitment tree, and the value pool.

use masp_vp::amount::MaspDigitPos;
use masp_vp::asset::{encode_asset_type, unepoched_tokens};
use masp_vp::hashes::address_hash;
use masp_vp::kv::KvMap;
use masp_vp::tree::CommitmentTree;
use masp_vp::types::{Address, AssetType, NoteCommitment};
use masp_vp::value_sum::{PoolSign, ValueSum};
use masp_vp::vp::GasMeter;

fn addr(name: &str) -> Address {
    Address { bytes: name.as_bytes().to_vec() }
}

#[test]
fn address_hash_is_ripemd160_of_sha256() {
    // The well-known digest of the empty input.
    let empty = Address { bytes: vec![] };
    let expected = [
        0xb4u8, 0x72, 0xa2, 0x66, 0xd0, 0xbd, 0x89, 0xc1, 0x37, 0x06, 0xa4, 0x13, 0x2c, 0xcf,
        0xb1, 0x6f, 0x7c, 0x3b, 0x9f, 0xcb,
    ];
    assert_eq!(address_hash(&empty), expected.to_vec());

    // Cross-check an arbitrary identity against the hash crates directly.
    let a = addr("some-identity");
    let inner = <sha2::Sha256 as sha2::Digest>::digest(&a.bytes);
    let outer = <ripemd::Ripemd160 as ripemd::Digest>::digest(inner);
    assert_eq!(address_hash(&a), outer.to_vec());
    assert_eq!(address_hash(&a).len(), 20);
}

#[test]
fn asset_codec_is_deterministic_and_separates_assets() {
    let t = addr("token-T");
    let x1 = encode_asset_type(&t, 6, MaspDigitPos::Zero, Some(3));
    let x2 = encode_asset_type(&t, 6, MaspDigitPos::Zero, Some(3));
    assert_eq!(x1.id, x2.id);
    assert_eq!(x1.id.len(), 32);
    // Different digit, epoch presence, epoch value, denomination or token
    // give different identifiers.
    assert_ne!(x1.id, encode_asset_type(&t, 6, MaspDigitPos::One, Some(3)).id);
    assert_ne!(x1.id, encode_asset_type(&t, 6, MaspDigitPos::Zero, None).id);
    assert_ne!(x1.id, encode_asset_type(&t, 6, MaspDigitPos::Zero, Some(4)).id);
    assert_ne!(x1.id, encode_asset_type(&t, 7, MaspDigitPos::Zero, Some(3)).id);
    assert_ne!(x1.id, encode_asset_type(&addr("token-U"), 6, MaspDigitPos::Zero, Some(3)).id);
}

#[test]
fn unepoched_tokens_lists_all_four_digit_positions() {
    let t = addr("token-T");
    let m = unepoched_tokens(&t, 6);
    assert_eq!(m.len(), 4);
    for digit in [
        MaspDigitPos::Zero,
        MaspDigitPos::One,
        MaspDigitPos::Two,
        MaspDigitPos::Three,
    ] {
        let id = encode_asset_type(&t, 6, digit, None).id;
        assert_eq!(m.get(&id), Some(&digit));
    }
}

#[test]
fn kv_map_inserts_overwrites_and_removes() {
    let mut m: KvMap<u64> = KvMap::new();
    assert_eq!(m.len(), 0);
    assert_eq!(m.get(&b"k1".to_vec()), None);
    m.insert(b"k1".to_vec(), 1);
    m.insert(b"k2".to_vec(), 2);
    assert_eq!(m.len(), 2);
    assert_eq!(m.get(&b"k1".to_vec()), Some(&1));
    assert_eq!(m.get(&b"k2".to_vec()), Some(&2));
    m.insert(b"k1".to_vec(), 9);
    assert_eq!(m.len(), 2);
    assert_eq!(m.get(&b"k1".to_vec()), Some(&9));
    assert!(m.contains(&b"k2".to_vec()));
    assert_eq!(m.remove(&b"k2".to_vec()), Some(2));
    assert_eq!(m.len(), 1);
    assert!(!m.contains(&b"k2".to_vec()));
    assert_eq!(m.remove(&b"k2".to_vec()), None);
}

#[test]
fn tree_appends_in_order_and_compares_structurally() {
    let mut t1 = CommitmentTree { leaves: vec![] };
    assert!(t1.append(NoteCommitment { bytes: b"cm-1".to_vec() }));
    assert!(t1.append(NoteCommitment { bytes: b"cm-2".to_vec() }));
    let t2 = CommitmentTree {
        leaves: vec![
            NoteCommitment { bytes: b"cm-1".to_vec() },
            NoteCommitment { bytes: b"cm-2".to_vec() },
        ],
    };
    assert!(t1.eq_tree(&t2));
    let t3 = CommitmentTree {
        leaves: vec![
            NoteCommitment { bytes: b"cm-2".to_vec() },
            NoteCommitment { bytes: b"cm-1".to_vec() },
        ],
    };
    assert!(!t1.eq_tree(&t3));
    let copy = t1.duplicate();
    assert!(copy.eq_tree(&t1));
}

#[test]
fn value_pool_nets_to_zero_only_when_balanced() {
    let asset = AssetType { id: b"asset-1".to_vec() };
    let other = AssetType { id: b"asset-2".to_vec() };
    let mut pool = ValueSum::new();
    assert_eq!(pool.cmp_zero(), PoolSign::Zero);
    assert!(pool.checked_add_value(&asset, 5));
    assert_eq!(pool.cmp_zero(), PoolSign::Positive);
    assert!(pool.checked_sub_value(&other, 3));
    assert_eq!(pool.cmp_zero(), PoolSign::Mixed);
    assert!(pool.checked_sub_value(&asset, 5));
    assert_eq!(pool.cmp_zero(), PoolSign::Negative);
    assert!(pool.checked_add_value(&other, 3));
    assert_eq!(pool.cmp_zero(), PoolSign::Zero);
}

#[test]
fn value_pool_duplicate_is_independent() {
    let asset = AssetType { id: b"asset-1".to_vec() };
    let mut pool = ValueSum::new();
    assert!(pool.checked_add_value(&asset, 5));
    let copy = pool.duplicate();
    assert!(pool.checked_sub_value(&asset, 5));
    assert_eq!(pool.cmp_zero(), PoolSign::Zero);
    assert_eq!(copy.cmp_zero(), PoolSign::Positive);
}

#[test]
fn gas_meter_charges_until_the_limit() {
    let mut g = GasMeter { limit: 10, used: 0 };
    assert!(g.charge(4).is_ok());
    assert!(g.charge(6).is_ok());
    assert_eq!(g.used, 10);
    assert!(g.charge(1).is_err());
    assert_eq!(g.used, 10);
}
