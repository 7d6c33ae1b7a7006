//! The two read-only storage views and the set of changed keys.
//!
//! The predicate never writes: it reads the pre-state (committed at the end
//! of the previous block), the post-state (the tentative result of this
//! transaction), and the set of keys the transaction changed, each changed
//! key already resolved to the part of the namespace it names.

use vstd::prelude::*;
use crate::amount::Amount;
use crate::asset::RegisteredAsset;
use crate::bytes::{push_bytes, push_u64_le, u64_le};
use crate::kv::KvMap;
use crate::tree::CommitmentTree;
use crate::types::{Address, Anchor, IndexedTx, Nullifier, ShieldedActionOwner};

verus! {

/// A storage key changed by the transaction, resolved to what it names.
pub enum ChangedKey {
    /// A shielded-action balance key: `token`'s balance held by `owner`.
    Balance { token: Address, owner: ShieldedActionOwner },
    /// The key recording a revealed nullifier.
    Nullifier(Nullifier),
    /// The note-commitment tree key.
    CommitmentTree,
    /// A published note-commitment anchor.
    CommitmentAnchor(Anchor),
    /// The current conversion-tree anchor key.
    ConvertAnchor,
    /// A transaction pin key, distinguished by the bytes after the prefix.
    Pin(Vec<u8>),
    /// A key inside the pool's namespace that is not on the allow-list.
    MaspReserved(Vec<u8>),
    /// Any other key; not this predicate's concern.
    Other(Vec<u8>),
}

impl ChangedKey {
    /// Whether the key lies in the pool's own namespace.
    pub open spec fn is_masp_key(self) -> bool {
        match self {
            ChangedKey::Nullifier(_) => true,
            ChangedKey::CommitmentTree => true,
            ChangedKey::CommitmentAnchor(_) => true,
            ChangedKey::ConvertAnchor => true,
            ChangedKey::Pin(_) => true,
            ChangedKey::MaspReserved(_) => true,
            ChangedKey::Balance { .. } => false,
            ChangedKey::Other(_) => false,
        }
    }

    /// Whether the key is one a shielded action is allowed to write.
    pub open spec fn is_masp_allowed_key(self) -> bool {
        match self {
            ChangedKey::MaspReserved(_) => false,
            _ => self.is_masp_key(),
        }
    }
}

/// The storage key holding `token`'s balance for a named owner.
pub open spec fn balance_key_of(token: Seq<u8>, owner: Seq<u8>) -> Seq<u8> {
    seq![0u8] + u64_le(token.len() as u64) + token + owner
}

/// The storage key holding `token`'s minted supply.
pub open spec fn minted_key_of(token: Seq<u8>) -> Seq<u8> {
    seq![1u8] + u64_le(token.len() as u64) + token
}

/// The balance key a counterpart's delta is read from.
pub open spec fn counterpart_key_of(token: Seq<u8>, owner: ShieldedActionOwner) -> Seq<u8> {
    match owner {
        ShieldedActionOwner::Owner(a) => balance_key_of(token, a@),
        ShieldedActionOwner::Minted => minted_key_of(token),
    }
}

/// Builds the balance key of `(token, owner)`.
pub fn enc_balance_key(token: &Address, owner: &Address) -> (r: Vec<u8>)
    ensures
        r@ == balance_key_of(token@, owner@),
{
    let mut r: Vec<u8> = Vec::new();
    r.push(0);
    push_u64_le(&mut r, token.bytes.len() as u64);
    push_bytes(&mut r, &token.bytes);
    push_bytes(&mut r, &owner.bytes);
    proof {
        assert(r@ =~= balance_key_of(token@, owner@));
    }
    r
}

/// Builds the minted-supply key of `token`.
pub fn enc_minted_key(token: &Address) -> (r: Vec<u8>)
    ensures
        r@ == minted_key_of(token@),
{
    let mut r: Vec<u8> = Vec::new();
    r.push(1);
    push_u64_le(&mut r, token.bytes.len() as u64);
    push_bytes(&mut r, &token.bytes);
    proof {
        assert(r@ =~= minted_key_of(token@));
    }
    r
}

/// The balance recorded at `key`, zero when the key is absent.
pub open spec fn balance_at(balances: Map<Seq<u8>, Amount>, key: Seq<u8>) -> Amount {
    if balances.dom().contains(key) {
        balances[key]
    } else {
        Amount::spec_zero()
    }
}

/// The pre-state view: what was committed at the end of the previous block.
pub struct PreState {
    /// The nullifier keys already present.
    pub nullifiers: Vec<Nullifier>,
    /// The published note-commitment anchor history.
    pub anchors: Vec<Anchor>,
    /// The current conversion-tree anchor, when one is committed.
    pub convert_anchor: Option<Anchor>,
    /// The note-commitment tree, when one is committed.
    pub tree: Option<CommitmentTree>,
    /// Balances by balance key.
    pub balances: KvMap<Amount>,
    /// Token denominations by token identity.
    pub denoms: KvMap<u8>,
}

impl PreState {
    pub open spec fn wf(self) -> bool {
        &&& self.balances.wf()
        &&& self.denoms.wf()
    }

    /// Whether the nullifier key of `nf` is present.
    pub open spec fn has_nullifier(self, nf: Seq<u8>) -> bool {
        exists|i: int| 0 <= i < self.nullifiers@.len() && self.nullifiers@[i]@ == nf
    }

    /// Whether `a` is in the anchor history.
    pub open spec fn has_anchor(self, a: Seq<u8>) -> bool {
        exists|i: int| 0 <= i < self.anchors@.len() && self.anchors@[i]@ == a
    }
}

/// The post-state view: the tentative result of applying the transaction.
pub struct PostState {
    /// The committed payload under each written nullifier key; a temporary
    /// or deleted write leaves no entry here.
    pub nullifier_writes: KvMap<Vec<u8>>,
    /// The note-commitment tree after the transaction.
    pub tree: Option<CommitmentTree>,
    /// Balances by balance key.
    pub balances: KvMap<Amount>,
    /// The pin entries, by the distinguishing bytes of their keys.
    pub pins: KvMap<IndexedTx>,
}

impl PostState {
    pub open spec fn wf(self) -> bool {
        &&& self.nullifier_writes.wf()
        &&& self.balances.wf()
        &&& self.pins.wf()
    }

    /// Whether `nf` ended up committed, with no payload and not as a
    /// temporary or deleted write.
    pub open spec fn nullifier_committed_empty(self, nf: Seq<u8>) -> bool {
        &&& self.nullifier_writes.contains_key(nf)
        &&& self.nullifier_writes.as_map()[nf]@.len() == 0
    }
}

/// The ambient context the dispatcher supplies for one validation pass.
pub struct VpCtx {
    /// The height of the block being built.
    pub block_height: u64,
    /// The index of this transaction within the block.
    pub tx_index: u32,
    /// The current epoch.
    pub epoch: u64,
    /// The pool's own internal address.
    pub masp_addr: Address,
    /// The minted-supply sentinel identity.
    pub minted_addr: Address,
    /// The conversion registry, read-only here.
    pub conversion: KvMap<RegisteredAsset>,
    /// The committed storage view.
    pub pre: PreState,
    /// The tentative storage view.
    pub post: PostState,
}

impl VpCtx {
    pub open spec fn wf(self) -> bool {
        &&& self.conversion.wf()
        &&& self.pre.wf()
        &&& self.post.wf()
    }
}

/// The validity predicate, holding the ambient context it validates against.
pub struct MaspVp {
    pub ctx: VpCtx,
}

/// Reads the balance at `key`, zero when absent.
pub fn read_balance(balances: &KvMap<Amount>, key: &Vec<u8>) -> (r: Amount)
    requires
        balances.wf(),
    ensures
        r == balance_at(balances.as_map(), key@),
{
    match balances.get(key) {
        Some(a) => *a,
        None => Amount::zero(),
    }
}

/// Finds a nullifier among those already committed in pre-state.
pub fn pre_has_nullifier(pre: &PreState, nf: &Nullifier) -> (r: bool)
    ensures
        r == pre.has_nullifier(nf@),
{
    let mut i: usize = 0;
    while i < pre.nullifiers.len()
        invariant
            i <= pre.nullifiers.len(),
            forall|j: int| 0 <= j < i ==> pre.nullifiers@[j]@ != nf@,
        decreases pre.nullifiers.len() - i,
    {
        if crate::bytes::bytes_eq(&pre.nullifiers[i].bytes, &nf.bytes) {
            return true;
        }
        i += 1;
    }
    false
}

/// Finds an anchor in the pre-state anchor history.
pub fn pre_has_anchor(pre: &PreState, a: &Anchor) -> (r: bool)
    ensures
        r == pre.has_anchor(a@),
{
    let mut i: usize = 0;
    while i < pre.anchors.len()
        invariant
            i <= pre.anchors.len(),
            forall|j: int| 0 <= j < i ==> pre.anchors@[j]@ != a@,
        decreases pre.anchors.len() - i,
    {
        if crate::bytes::bytes_eq(&pre.anchors[i].bytes, &a.bytes) {
            return true;
        }
        i += 1;
    }
    false
}

} // verus!
