//! End-to-end scenarios for the validity predicate: one consistent
//! transaction that must be accepted, and one rejection per error.

use masp_vp::amount::{Amount, MaspDigitPos, SignedAmount};
use masp_vp::asset::{encode_asset_type, RegisteredAsset};
use masp_vp::balance::ChangedBalances;
use masp_vp::error::Error;
use masp_vp::hashes::address_hash;
use masp_vp::kv::KvMap;
use masp_vp::state::{enc_balance_key, ChangedKey, MaspVp, PostState, PreState, VpCtx};
use masp_vp::tree::CommitmentTree;
use masp_vp::tx::{
    ConvertDescription, OutputDescription, SaplingBundle, SpendDescription, Transaction,
    TransparentBundle, TransparentEntry,
};
use masp_vp::types::{Address, Anchor, IndexedTx, NoteCommitment, Nullifier, ShieldedActionOwner};
use masp_vp::value_sum::ValueSum;
use masp_vp::vp::{GasMeter, ProofVerification};

fn addr(name: &str) -> Address {
    Address { bytes: name.as_bytes().to_vec() }
}

fn amount_u64(v: u64) -> Amount {
    Amount { l0: v, l1: 0, l2: 0, l3: 0 }
}

const EPOCH: u64 = 5;
const HEIGHT: u64 = 100;
const TX_INDEX: u32 = 0;

/// The scenario: pool holds token T with denomination 6; a transfer moves
/// 1,000,000 units from external address A to external address B through the
/// pool in one epoch.
struct Scenario {
    token: Address,
    a: Address,
    b: Address,
    asset_epoched: masp_vp::types::AssetType,
}

impl Scenario {
    fn new() -> Scenario {
        Scenario {
            token: addr("token-T"),
            a: addr("address-A"),
            b: addr("address-B"),
            asset_epoched: encode_asset_type(&addr("token-T"), 6, MaspDigitPos::Zero, Some(EPOCH)),
        }
    }

    fn ctx(&self) -> VpCtx {
        let mut conversion: KvMap<RegisteredAsset> = KvMap::new();
        conversion.insert(
            self.asset_epoched.id.clone(),
            RegisteredAsset {
                token: addr("token-T"),
                denom: 6,
                digit: MaspDigitPos::Zero,
                epoch: EPOCH,
            },
        );
        let mut denoms: KvMap<u8> = KvMap::new();
        denoms.insert(self.token.bytes.clone(), 6);
        // A starts with 1,000,000 and ends with 0; B starts with 0 and ends
        // with 1,000,000.
        let mut pre_balances: KvMap<Amount> = KvMap::new();
        pre_balances.insert(enc_balance_key(&self.token, &self.a), amount_u64(1_000_000));
        let mut post_balances: KvMap<Amount> = KvMap::new();
        post_balances.insert(enc_balance_key(&self.token, &self.b), amount_u64(1_000_000));
        VpCtx {
            block_height: HEIGHT,
            tx_index: TX_INDEX,
            epoch: EPOCH,
            masp_addr: addr("pool"),
            minted_addr: addr("minted"),
            conversion,
            pre: PreState {
                nullifiers: vec![],
                anchors: vec![],
                convert_anchor: None,
                tree: Some(CommitmentTree { leaves: vec![] }),
                balances: pre_balances,
                denoms,
            },
            post: PostState {
                nullifier_writes: KvMap::new(),
                tree: Some(CommitmentTree { leaves: vec![] }),
                balances: post_balances,
                pins: KvMap::new(),
            },
        }
    }

    fn keys_changed(&self) -> Vec<ChangedKey> {
        vec![
            ChangedKey::Balance {
                token: addr("token-T"),
                owner: ShieldedActionOwner::Owner(addr("pool")),
            },
            ChangedKey::Balance {
                token: addr("token-T"),
                owner: ShieldedActionOwner::Owner(addr("address-A")),
            },
            ChangedKey::Balance {
                token: addr("token-T"),
                owner: ShieldedActionOwner::Owner(addr("address-B")),
            },
        ]
    }

    fn tx(&self) -> Transaction {
        Transaction {
            expiry_height: HEIGHT + 10,
            value_balance: ValueSum::new(),
            sapling_bundle: None,
            transparent_bundle: Some(TransparentBundle {
                vin: vec![TransparentEntry {
                    asset_type: masp_vp::types::AssetType {
                        id: self.asset_epoched.id.clone(),
                    },
                    value: 1_000_000,
                    address: address_hash(&self.a),
                }],
                vout: vec![TransparentEntry {
                    asset_type: masp_vp::types::AssetType {
                        id: self.asset_epoched.id.clone(),
                    },
                    value: 1_000_000,
                    address: address_hash(&self.b),
                }],
            }),
        }
    }
}

fn run(ctx: VpCtx, tx: &Transaction, keys: &Vec<ChangedKey>) -> (Result<(), Error>, GasMeter) {
    let vp = MaspVp { ctx };
    let mut gas = GasMeter { limit: 1_000, used: 0 };
    let report = ProofVerification { gas_cost: 10, accepted: true };
    let r = vp.validate_tx(tx, keys, &vec![], &report, &mut gas);
    (r, gas)
}

#[test]
fn consistent_transfer_is_accepted() {
    let s = Scenario::new();
    let (r, gas) = run(s.ctx(), &s.tx(), &s.keys_changed());
    assert_eq!(r, Ok(()));
    assert_eq!(gas.used, 10);
}

#[test]
fn changed_balances_match_the_scenario() {
    let s = Scenario::new();
    let vp = MaspVp { ctx: s.ctx() };
    let cb: ChangedBalances =
        vp.validate_state_and_get_transfer_data(&s.keys_changed()).unwrap();
    assert_eq!(cb.masp.len(), 1);
    assert_eq!(cb.masp[0].bytes, s.token.bytes);
    let deltas = cb.other.get(&s.token.bytes).unwrap();
    let da = deltas.get(&address_hash(&s.a)).unwrap();
    let db = deltas.get(&address_hash(&s.b)).unwrap();
    assert_eq!(*da, SignedAmount::Negative(amount_u64(1_000_000)));
    assert_eq!(*db, SignedAmount::Positive(amount_u64(1_000_000)));
}

#[test]
fn expired_transaction_is_rejected() {
    let s = Scenario::new();
    let mut tx = s.tx();
    tx.expiry_height = HEIGHT - 1;
    let (r, gas) = run(s.ctx(), &tx, &s.keys_changed());
    assert_eq!(r, Err(Error::TransactionExpired));
    assert_eq!(gas.used, 0);
}

#[test]
fn reserved_key_write_is_rejected() {
    let s = Scenario::new();
    let mut keys = s.keys_changed();
    keys.push(ChangedKey::MaspReserved(b"balance-target".to_vec()));
    let (r, _) = run(s.ctx(), &s.tx(), &keys);
    assert_eq!(r, Err(Error::UnauthorizedKeyWrite));
}

#[test]
fn two_pin_keys_are_rejected() {
    let s = Scenario::new();
    let mut keys = s.keys_changed();
    keys.push(ChangedKey::Pin(b"pin-1".to_vec()));
    keys.push(ChangedKey::Pin(b"pin-2".to_vec()));
    let (r, _) = run(s.ctx(), &s.tx(), &keys);
    assert_eq!(r, Err(Error::InvalidPinKey));
}

#[test]
fn pin_at_wrong_position_is_rejected() {
    let s = Scenario::new();
    let mut ctx = s.ctx();
    ctx.post.pins.insert(b"pin-1".to_vec(), IndexedTx { height: HEIGHT + 1, index: TX_INDEX });
    let mut keys = s.keys_changed();
    keys.push(ChangedKey::Pin(b"pin-1".to_vec()));
    let (r, _) = run(ctx, &s.tx(), &keys);
    assert_eq!(r, Err(Error::InvalidPinKey));
}

#[test]
fn pin_at_own_position_is_accepted() {
    let s = Scenario::new();
    let mut ctx = s.ctx();
    ctx.post.pins.insert(b"pin-1".to_vec(), IndexedTx { height: HEIGHT, index: TX_INDEX });
    let mut keys = s.keys_changed();
    keys.push(ChangedKey::Pin(b"pin-1".to_vec()));
    let (r, _) = run(ctx, &s.tx(), &keys);
    assert_eq!(r, Ok(()));
}

/// A scenario variant with one spend description, its anchor published and
/// its nullifier committed empty.
fn with_spend(
    s: &Scenario,
    nullifier: &[u8],
) -> (VpCtx, Transaction, Vec<ChangedKey>) {
    let mut ctx = s.ctx();
    ctx.pre.anchors.push(Anchor { bytes: b"anchor-1".to_vec() });
    ctx.post.nullifier_writes.insert(nullifier.to_vec(), vec![]);
    let mut tx = s.tx();
    tx.sapling_bundle = Some(SaplingBundle {
        shielded_spends: vec![SpendDescription {
            nullifier: Nullifier { bytes: nullifier.to_vec() },
            anchor: Anchor { bytes: b"anchor-1".to_vec() },
        }],
        shielded_outputs: vec![],
        shielded_converts: vec![],
    });
    let mut keys = s.keys_changed();
    keys.push(ChangedKey::Nullifier(Nullifier { bytes: nullifier.to_vec() }));
    (ctx, tx, keys)
}

#[test]
fn valid_spend_is_accepted() {
    let s = Scenario::new();
    let (ctx, tx, keys) = with_spend(&s, b"nf-1");
    let (r, _) = run(ctx, &tx, &keys);
    assert_eq!(r, Ok(()));
}

#[test]
fn nullifier_revealed_twice_in_one_tx_is_double_spend() {
    let s = Scenario::new();
    let (ctx, mut tx, keys) = with_spend(&s, b"nf-1");
    if let Some(bundle) = tx.sapling_bundle.as_mut() {
        bundle.shielded_spends.push(SpendDescription {
            nullifier: Nullifier { bytes: b"nf-1".to_vec() },
            anchor: Anchor { bytes: b"anchor-1".to_vec() },
        });
    }
    let (r, _) = run(ctx, &tx, &keys);
    assert_eq!(r, Err(Error::DoubleSpend));
}

#[test]
fn nullifier_already_in_history_is_double_spend() {
    let s = Scenario::new();
    let (mut ctx, tx, keys) = with_spend(&s, b"nf-1");
    ctx.pre.nullifiers.push(Nullifier { bytes: b"nf-1".to_vec() });
    let (r, _) = run(ctx, &tx, &keys);
    assert_eq!(r, Err(Error::DoubleSpend));
}

#[test]
fn uncommitted_nullifier_is_rejected() {
    let s = Scenario::new();
    let (mut ctx, tx, keys) = with_spend(&s, b"nf-1");
    ctx.post.nullifier_writes = KvMap::new();
    let (r, _) = run(ctx, &tx, &keys);
    assert_eq!(r, Err(Error::UncommittedOrPayloadedNullifier));
}

#[test]
fn nullifier_with_payload_is_rejected() {
    let s = Scenario::new();
    let (mut ctx, tx, keys) = with_spend(&s, b"nf-1");
    ctx.post.nullifier_writes = KvMap::new();
    ctx.post.nullifier_writes.insert(b"nf-1".to_vec(), vec![1]);
    let (r, _) = run(ctx, &tx, &keys);
    assert_eq!(r, Err(Error::UncommittedOrPayloadedNullifier));
}

#[test]
fn stray_nullifier_write_is_rejected() {
    let s = Scenario::new();
    let (ctx, tx, mut keys) = with_spend(&s, b"nf-1");
    keys.push(ChangedKey::Nullifier(Nullifier { bytes: b"nf-other".to_vec() }));
    let (r, _) = run(ctx, &tx, &keys);
    assert_eq!(r, Err(Error::UnexpectedNullifierWrite));
}

#[test]
fn unpublished_spend_anchor_is_rejected() {
    let s = Scenario::new();
    let (mut ctx, tx, keys) = with_spend(&s, b"nf-1");
    ctx.pre.anchors = vec![Anchor { bytes: b"anchor-other".to_vec() }];
    let (r, _) = run(ctx, &tx, &keys);
    assert_eq!(r, Err(Error::InvalidSpendAnchor));
}

#[test]
fn wrong_convert_anchor_is_rejected() {
    let s = Scenario::new();
    let mut ctx = s.ctx();
    ctx.pre.convert_anchor = Some(Anchor { bytes: b"conv-anchor".to_vec() });
    let mut tx = s.tx();
    tx.sapling_bundle = Some(SaplingBundle {
        shielded_spends: vec![],
        shielded_outputs: vec![],
        shielded_converts: vec![ConvertDescription {
            anchor: Anchor { bytes: b"conv-other".to_vec() },
        }],
    });
    let (r, _) = run(ctx, &tx, &s.keys_changed());
    assert_eq!(r, Err(Error::InvalidConvertAnchor));
}

#[test]
fn matching_convert_anchor_is_accepted() {
    let s = Scenario::new();
    let mut ctx = s.ctx();
    ctx.pre.convert_anchor = Some(Anchor { bytes: b"conv-anchor".to_vec() });
    let mut tx = s.tx();
    tx.sapling_bundle = Some(SaplingBundle {
        shielded_spends: vec![],
        shielded_outputs: vec![],
        shielded_converts: vec![ConvertDescription {
            anchor: Anchor { bytes: b"conv-anchor".to_vec() },
        }],
    });
    let (r, _) = run(ctx, &tx, &s.keys_changed());
    assert_eq!(r, Ok(()));
}

#[test]
fn missing_convert_anchor_in_storage_is_rejected() {
    let s = Scenario::new();
    let mut tx = s.tx();
    tx.sapling_bundle = Some(SaplingBundle {
        shielded_spends: vec![],
        shielded_outputs: vec![],
        shielded_converts: vec![ConvertDescription {
            anchor: Anchor { bytes: b"conv-anchor".to_vec() },
        }],
    });
    let (r, _) = run(s.ctx(), &tx, &s.keys_changed());
    assert_eq!(r, Err(Error::StorageReadFailure));
}

#[test]
fn correct_tree_update_is_accepted() {
    let s = Scenario::new();
    let mut ctx = s.ctx();
    ctx.pre.tree = Some(CommitmentTree {
        leaves: vec![NoteCommitment { bytes: b"cm-0".to_vec() }],
    });
    ctx.post.tree = Some(CommitmentTree {
        leaves: vec![
            NoteCommitment { bytes: b"cm-0".to_vec() },
            NoteCommitment { bytes: b"cm-1".to_vec() },
        ],
    });
    let mut tx = s.tx();
    tx.sapling_bundle = Some(SaplingBundle {
        shielded_spends: vec![],
        shielded_outputs: vec![OutputDescription {
            cmu: NoteCommitment { bytes: b"cm-1".to_vec() },
        }],
        shielded_converts: vec![],
    });
    let (r, _) = run(ctx, &tx, &s.keys_changed());
    assert_eq!(r, Ok(()));
}

#[test]
fn missing_appended_commitment_is_rejected() {
    let s = Scenario::new();
    let mut tx = s.tx();
    tx.sapling_bundle = Some(SaplingBundle {
        shielded_spends: vec![],
        shielded_outputs: vec![OutputDescription {
            cmu: NoteCommitment { bytes: b"cm-1".to_vec() },
        }],
        shielded_converts: vec![],
    });
    // Post tree was left unchanged: the appended commitment is missing.
    let (r, _) = run(s.ctx(), &tx, &s.keys_changed());
    assert_eq!(r, Err(Error::CommitmentTreeMismatch));
}

#[test]
fn extra_commitment_in_post_tree_is_rejected() {
    let s = Scenario::new();
    let mut ctx = s.ctx();
    ctx.post.tree = Some(CommitmentTree {
        leaves: vec![NoteCommitment { bytes: b"cm-extra".to_vec() }],
    });
    let (r, _) = run(ctx, &s.tx(), &s.keys_changed());
    assert_eq!(r, Err(Error::CommitmentTreeMismatch));
}

#[test]
fn swapped_commitments_are_rejected() {
    let s = Scenario::new();
    let mut ctx = s.ctx();
    ctx.pre.tree = Some(CommitmentTree { leaves: vec![] });
    ctx.post.tree = Some(CommitmentTree {
        leaves: vec![
            NoteCommitment { bytes: b"cm-2".to_vec() },
            NoteCommitment { bytes: b"cm-1".to_vec() },
        ],
    });
    let mut tx = s.tx();
    tx.sapling_bundle = Some(SaplingBundle {
        shielded_spends: vec![],
        shielded_outputs: vec![
            OutputDescription { cmu: NoteCommitment { bytes: b"cm-1".to_vec() } },
            OutputDescription { cmu: NoteCommitment { bytes: b"cm-2".to_vec() } },
        ],
        shielded_converts: vec![],
    });
    let (r, _) = run(ctx, &tx, &s.keys_changed());
    assert_eq!(r, Err(Error::CommitmentTreeMismatch));
}

#[test]
fn missing_pre_tree_is_rejected() {
    let s = Scenario::new();
    let mut ctx = s.ctx();
    ctx.pre.tree = None;
    let (r, _) = run(ctx, &s.tx(), &s.keys_changed());
    assert_eq!(r, Err(Error::StorageReadFailure));
}

#[test]
fn one_unit_surplus_is_rejected_as_surplus() {
    let s = Scenario::new();
    let mut ctx = s.ctx();
    // Storage agrees with the bundle: A loses 1,000,001.
    ctx.pre.balances = KvMap::new();
    ctx.pre.balances.insert(enc_balance_key(&s.token, &s.a), amount_u64(1_000_001));
    let mut tx = s.tx();
    if let Some(bundle) = tx.transparent_bundle.as_mut() {
        bundle.vin[0].value = 1_000_001;
    }
    let (r, _) = run(ctx, &tx, &s.keys_changed());
    assert_eq!(r, Err(Error::NonZeroTransparentPoolSurplus));
}

#[test]
fn one_unit_deficit_is_rejected_as_deficit() {
    let s = Scenario::new();
    let mut ctx = s.ctx();
    // Storage agrees with the bundle: A loses only 999,999.
    ctx.pre.balances = KvMap::new();
    ctx.pre.balances.insert(enc_balance_key(&s.token, &s.a), amount_u64(999_999));
    let mut tx = s.tx();
    if let Some(bundle) = tx.transparent_bundle.as_mut() {
        bundle.vin[0].value = 999_999;
    }
    let (r, _) = run(ctx, &tx, &s.keys_changed());
    assert_eq!(r, Err(Error::NonZeroTransparentPoolDeficit));
}

#[test]
fn unrecognized_input_is_rejected_as_unclaimed() {
    let s = Scenario::new();
    let unknown = encode_asset_type(&addr("token-other"), 6, MaspDigitPos::Zero, Some(EPOCH));
    let mut tx = s.tx();
    if let Some(bundle) = tx.transparent_bundle.as_mut() {
        bundle.vin.push(TransparentEntry {
            asset_type: unknown,
            value: 7,
            address: address_hash(&s.a),
        });
    }
    let (r, _) = run(s.ctx(), &tx, &s.keys_changed());
    assert_eq!(r, Err(Error::UnclaimedBundleEntries));
}

#[test]
fn backdated_unepoched_input_is_rejected() {
    let s = Scenario::new();
    // The input uses the unepoched variant while the epoched one for the
    // current epoch exists in the registry.
    let unepoched = encode_asset_type(&s.token, 6, MaspDigitPos::Zero, None);
    let mut tx = s.tx();
    if let Some(bundle) = tx.transparent_bundle.as_mut() {
        bundle.vin[0].asset_type = unepoched;
    }
    let (r, _) = run(s.ctx(), &tx, &s.keys_changed());
    assert_eq!(r, Err(Error::BackdatedAssetType));
}

#[test]
fn legacy_unepoched_input_without_epoched_variant_is_accepted() {
    let s = Scenario::new();
    let unepoched = encode_asset_type(&s.token, 6, MaspDigitPos::Zero, None);
    let mut ctx = s.ctx();
    // The registry knows neither the unepoched nor the epoched variant.
    ctx.conversion = KvMap::new();
    let mut tx = s.tx();
    if let Some(bundle) = tx.transparent_bundle.as_mut() {
        bundle.vin[0].asset_type = masp_vp::types::AssetType { id: unepoched.id.clone() };
        bundle.vout[0].asset_type = masp_vp::types::AssetType { id: unepoched.id.clone() };
    }
    let (r, _) = run(ctx, &tx, &s.keys_changed());
    assert_eq!(r, Ok(()));
}

#[test]
fn bundle_differing_from_storage_is_rejected() {
    let s = Scenario::new();
    let mut ctx = s.ctx();
    // Storage says A lost 999,999, the bundle says 1,000,000.
    ctx.pre.balances = KvMap::new();
    ctx.pre.balances.insert(enc_balance_key(&s.token, &s.a), amount_u64(999_999));
    let (r, _) = run(ctx, &s.tx(), &s.keys_changed());
    assert_eq!(r, Err(Error::BundleStorageMismatch));
}

#[test]
fn missing_denomination_is_rejected() {
    let s = Scenario::new();
    let mut ctx = s.ctx();
    ctx.pre.denoms = KvMap::new();
    let (r, _) = run(ctx, &s.tx(), &s.keys_changed());
    assert_eq!(r, Err(Error::StorageReadFailure));
}

#[test]
fn changed_pool_balance_without_bundle_is_rejected() {
    let s = Scenario::new();
    let mut tx = s.tx();
    tx.transparent_bundle = None;
    let (r, _) = run(s.ctx(), &tx, &s.keys_changed());
    assert_eq!(r, Err(Error::BundleStorageMismatch));
}

#[test]
fn out_of_gas_aborts_at_proof_verification() {
    let s = Scenario::new();
    let vp = MaspVp { ctx: s.ctx() };
    let mut gas = GasMeter { limit: 5, used: 0 };
    let report = ProofVerification { gas_cost: 10, accepted: true };
    let r = vp.validate_tx(&s.tx(), &s.keys_changed(), &vec![], &report, &mut gas);
    assert_eq!(r, Err(Error::OutOfGas));
    assert_eq!(gas.used, 0);
}

#[test]
fn rejected_proofs_fail_after_charging_gas() {
    let s = Scenario::new();
    let vp = MaspVp { ctx: s.ctx() };
    let mut gas = GasMeter { limit: 1_000, used: 0 };
    let report = ProofVerification { gas_cost: 10, accepted: false };
    let r = vp.validate_tx(&s.tx(), &s.keys_changed(), &vec![], &report, &mut gas);
    assert_eq!(r, Err(Error::ProofVerificationFailure));
    assert_eq!(gas.used, 10);
}

#[test]
fn minted_counterpart_delta_is_sign_inverted() {
    let s = Scenario::new();
    // The minted supply of T grows by 42: recorded as a negative delta.
    let mut ctx = s.ctx();
    ctx.post.balances.insert(
        masp_vp::state::enc_minted_key(&s.token),
        amount_u64(42),
    );
    let mut keys = s.keys_changed();
    keys.push(ChangedKey::Balance {
        token: addr("token-T"),
        owner: ShieldedActionOwner::Minted,
    });
    let vp = MaspVp { ctx };
    let cb = vp.validate_state_and_get_transfer_data(&keys).unwrap();
    let deltas = cb.other.get(&s.token.bytes).unwrap();
    let dm = deltas.get(&address_hash(&addr("minted"))).unwrap();
    assert_eq!(*dm, SignedAmount::Negative(amount_u64(42)));
}
