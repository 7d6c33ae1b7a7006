//! The structural checks on the sapling bundle: spend and convert anchors,
//! nullifier revelation, and the note-commitment tree update.

use vstd::prelude::*;
use crate::bytes::bytes_eq;
use crate::error::Error;
use crate::state::{MaspVp, ChangedKey, PreState, VpCtx, pre_has_anchor, pre_has_nullifier};
use crate::tree::{CommitmentTree, MAX_TREE_LEAVES};
use crate::tx::{OutputDescription, SpendDescription, Transaction};
use crate::types::Nullifier;

verus! {

/// Every spend description's anchor is in the published anchor history.
pub open spec fn all_spend_anchors_valid(pre: PreState, tx: Transaction) -> bool {
    forall|i: int|
        0 <= i < tx.spends().len() ==> pre.has_anchor((#[trigger] tx.spends()[i]).anchor@)
}

/// What the spend-anchor check returns.
pub open spec fn spend_anchors_spec(pre: PreState, tx: Transaction) -> Result<(), Error> {
    if all_spend_anchors_valid(pre, tx) {
        Ok(())
    } else {
        Err(Error::InvalidSpendAnchor)
    }
}

/// Every convert description's anchor equals `expected`.
pub open spec fn all_convert_anchors_match(tx: Transaction, expected: Seq<u8>) -> bool {
    forall|i: int|
        0 <= i < tx.converts().len() ==> (#[trigger] tx.converts()[i]).anchor@ == expected
}

/// What the convert-anchor check returns.
pub open spec fn convert_anchors_spec(pre: PreState, tx: Transaction) -> Result<(), Error> {
    if tx.converts().len() == 0 {
        Ok(())
    } else {
        match pre.convert_anchor {
            None => Err(Error::StorageReadFailure),
            Some(expected) => {
                if all_convert_anchors_match(tx, expected@) {
                    Ok(())
                } else {
                    Err(Error::InvalidConvertAnchor)
                }
            },
        }
    }
}

/// The spend at `i` reveals a nullifier already present in pre-state or
/// already revealed by an earlier spend of the same transaction.
pub open spec fn double_spend_at(ctx: VpCtx, spends: Seq<SpendDescription>, i: int) -> bool {
    ||| ctx.pre.has_nullifier(spends[i].nullifier@)
    ||| exists|j: int| 0 <= j < i && (#[trigger] spends[j]).nullifier@ == spends[i].nullifier@
}

/// The spend at `i` fails the nullifier check: a double spend, or a
/// nullifier that did not end up committed empty.
pub open spec fn spend_fault(ctx: VpCtx, spends: Seq<SpendDescription>, i: int) -> bool {
    ||| double_spend_at(ctx, spends, i)
    ||| !ctx.post.nullifier_committed_empty(spends[i].nullifier@)
}

/// Some spend description reveals `nf`.
pub open spec fn nullifier_declared(spends: Seq<SpendDescription>, nf: Seq<u8>) -> bool {
    exists|i: int| 0 <= i < spends.len() && (#[trigger] spends[i]).nullifier@ == nf
}

/// Some changed nullifier key is declared by no spend description.
pub open spec fn stray_nullifier_write(keys: Seq<ChangedKey>, spends: Seq<SpendDescription>) -> bool {
    exists|i: int|
        0 <= i < keys.len() && match #[trigger] keys[i] {
            ChangedKey::Nullifier(nf) => !nullifier_declared(spends, nf@),
            _ => false,
        }
}

/// What the nullifier check returns: the fault of the first faulty spend,
/// else a stray-write error, else success.
pub open spec fn nullifiers_spec(ctx: VpCtx, keys: Seq<ChangedKey>, tx: Transaction) -> Result<
    (),
    Error,
> {
    let spends = tx.spends();
    if exists|i: int| 0 <= i < spends.len() && spend_fault(ctx, spends, i) {
        let i = choose|i: int|
            0 <= i < spends.len() && spend_fault(ctx, spends, i) && forall|j: int|
                0 <= j < i ==> !spend_fault(ctx, spends, j);
        if double_spend_at(ctx, spends, i) {
            Err(Error::DoubleSpend)
        } else {
            Err(Error::UncommittedOrPayloadedNullifier)
        }
    } else if stray_nullifier_write(keys, spends) {
        Err(Error::UnexpectedNullifierWrite)
    } else {
        Ok(())
    }
}

/// The first faulty spend decides the nullifier check's error.
pub proof fn lemma_nullifiers_spec_fault(
    ctx: VpCtx,
    keys: Seq<ChangedKey>,
    tx: Transaction,
    i: int,
)
    requires
        0 <= i < tx.spends().len(),
        spend_fault(ctx, tx.spends(), i),
        forall|j: int| 0 <= j < i ==> !spend_fault(ctx, tx.spends(), j),
    ensures
        nullifiers_spec(ctx, keys, tx) == Err::<(), Error>(
            if double_spend_at(ctx, tx.spends(), i) {
                Error::DoubleSpend
            } else {
                Error::UncommittedOrPayloadedNullifier
            },
        ),
{
    let spends = tx.spends();
    let i0 = choose|i0: int|
        0 <= i0 < spends.len() && spend_fault(ctx, spends, i0) && forall|j: int|
            0 <= j < i0 ==> !spend_fault(ctx, spends, j);
    assert(exists|k: int| 0 <= k < spends.len() && spend_fault(ctx, spends, k));
    assert(0 <= i0 < spends.len() && spend_fault(ctx, spends, i0) && forall|j: int|
        0 <= j < i0 ==> !spend_fault(ctx, spends, j)) by {
        assert(spend_fault(ctx, spends, i) && forall|j: int|
            0 <= j < i ==> !spend_fault(ctx, spends, j));
    }
    if i0 < i {
        assert(!spend_fault(ctx, spends, i0));
    } else if i < i0 {
        assert(!spend_fault(ctx, spends, i));
    }
}

/// Whether some nullifier in the list has view `nf`.
fn nullifier_list_contains(v: &Vec<Nullifier>, nf: &Nullifier) -> (r: bool)
    ensures
        r == exists|i: int| 0 <= i < v@.len() && (#[trigger] v@[i])@ == nf@,
{
    let mut i: usize = 0;
    while i < v.len()
        invariant
            i <= v.len(),
            forall|j: int| 0 <= j < i ==> (#[trigger] v@[j])@ != nf@,
        decreases v.len() - i,
    {
        if bytes_eq(&v[i].bytes, &nf.bytes) {
            return true;
        }
        i += 1;
    }
    false
}

/// The leaves of a tree after appending the outputs' commitments in order.
pub open spec fn appended_leaves(pre_leaves: Seq<Seq<u8>>, outs: Seq<OutputDescription>) -> Seq<
    Seq<u8>,
> {
    pre_leaves + outs.map_values(|o: OutputDescription| o.cmu@)
}

/// What the tree-update check returns: both trees must be readable, the
/// appends must fit, and the post tree must equal the pre tree with exactly
/// the bundle's output commitments appended, in order.
pub open spec fn tree_update_spec(ctx: VpCtx, tx: Transaction) -> Result<(), Error> {
    match (ctx.pre.tree, ctx.post.tree) {
        (Some(pre_t), Some(post_t)) => {
            let n = tx.outputs().len();
            if n > 0 && pre_t@.len() + n > MAX_TREE_LEAVES {
                Err(Error::CommitmentTreeMismatch)
            } else if post_t@ == appended_leaves(pre_t@, tx.outputs()) {
                Ok(())
            } else {
                Err(Error::CommitmentTreeMismatch)
            }
        },
        _ => Err(Error::StorageReadFailure),
    }
}

impl MaspVp {
    /// Checks that every spend description's anchor was published before.
    pub fn valid_spend_descriptions_anchor(&self, transaction: &Transaction) -> (r: Result<
        (),
        Error,
    >)
        ensures
            r == spend_anchors_spec(self.ctx.pre, *transaction),
    {
        if let Some(bundle) = &transaction.sapling_bundle {
            let mut i: usize = 0;
            while i < bundle.shielded_spends.len()
                invariant
                    i <= bundle.shielded_spends.len(),
                    transaction.sapling_bundle matches Some(b)
                        && b.shielded_spends == bundle.shielded_spends,
                    forall|j: int|
                        0 <= j < i ==> self.ctx.pre.has_anchor(
                            (#[trigger] transaction.spends()[j]).anchor@,
                        ),
                decreases bundle.shielded_spends.len() - i,
            {
                if !pre_has_anchor(&self.ctx.pre, &bundle.shielded_spends[i].anchor) {
                    assert(!self.ctx.pre.has_anchor(transaction.spends()[i as int].anchor@));
                    return Err(Error::InvalidSpendAnchor);
                }
                i += 1;
            }
        }
        Ok(())
    }

    /// Checks that every convert description, if any exist, names the current
    /// conversion-tree anchor exactly.
    pub fn valid_convert_descriptions_anchor(&self, transaction: &Transaction) -> (r: Result<
        (),
        Error,
    >)
        ensures
            r == convert_anchors_spec(self.ctx.pre, *transaction),
    {
        if let Some(bundle) = &transaction.sapling_bundle {
            if bundle.shielded_converts.len() > 0 {
                let expected = match &self.ctx.pre.convert_anchor {
                    Some(a) => a,
                    None => {
                        return Err(Error::StorageReadFailure);
                    },
                };
                let mut i: usize = 0;
                while i < bundle.shielded_converts.len()
                    invariant
                        i <= bundle.shielded_converts.len(),
                        transaction.sapling_bundle matches Some(b)
                            && b.shielded_converts == bundle.shielded_converts,
                        self.ctx.pre.convert_anchor matches Some(a) && a@ == expected@,
                        forall|j: int|
                            0 <= j < i ==> (#[trigger] transaction.converts()[j]).anchor@
                                == expected@,
                    decreases bundle.shielded_converts.len() - i,
                {
                    if !bytes_eq(&bundle.shielded_converts[i].anchor.bytes, &expected.bytes) {
                        assert(transaction.converts()[i as int].anchor@ != expected@);
                        return Err(Error::InvalidConvertAnchor);
                    }
                    i += 1;
                }
            }
        }
        Ok(())
    }

    /// Checks that the transaction reveals exactly the nullifiers it spends:
    /// none twice, none already known, each committed empty, and no
    /// unexplained nullifier write among the changed keys.
    pub fn valid_nullifiers_reveal(
        &self,
        keys_changed: &Vec<ChangedKey>,
        transaction: &Transaction,
    ) -> (r: Result<(), Error>)
        requires
            self.ctx.wf(),
        ensures
            r == nullifiers_spec(self.ctx, keys_changed@, *transaction),
    {
        let ghost spends = transaction.spends();
        let mut revealed: Vec<Nullifier> = Vec::new();
        if let Some(bundle) = &transaction.sapling_bundle {
            let mut i: usize = 0;
            while i < bundle.shielded_spends.len()
                invariant
                    self.ctx.wf(),
                    i <= bundle.shielded_spends.len(),
                    transaction.sapling_bundle matches Some(b)
                        && b.shielded_spends == bundle.shielded_spends,
                    spends == transaction.spends(),
                    forall|j: int| 0 <= j < i ==> !spend_fault(self.ctx, spends, j),
                    revealed@.len() == i,
                    forall|j: int|
                        0 <= j < i ==> (#[trigger] revealed@[j])@ == spends[j].nullifier@,
                decreases bundle.shielded_spends.len() - i,
            {
                let nf = &bundle.shielded_spends[i].nullifier;
                assert(nf@ == spends[i as int].nullifier@);
                let in_pre = pre_has_nullifier(&self.ctx.pre, nf);
                let in_revealed = nullifier_list_contains(&revealed, nf);
                proof {
                    if in_revealed {
                        let j = choose|j: int|
                            0 <= j < revealed@.len() && (#[trigger] revealed@[j])@ == nf@;
                        assert(spends[j].nullifier@ == nf@);
                    } else {
                        assert forall|j: int| 0 <= j < i
                            implies (#[trigger] spends[j]).nullifier@ != nf@ by {
                            assert(revealed@[j]@ == spends[j].nullifier@);
                        }
                    }
                    assert(double_spend_at(self.ctx, spends, i as int) == (in_pre
                        || in_revealed));
                }
                if in_pre || in_revealed {
                    proof {
                        assert(double_spend_at(self.ctx, spends, i as int));
                        lemma_nullifiers_spec_fault(
                            self.ctx,
                            keys_changed@,
                            *transaction,
                            i as int,
                        );
                    }
                    return Err(Error::DoubleSpend);
                }
                let committed_empty: bool = match self.ctx.post.nullifier_writes.get(&nf.bytes) {
                    Some(payload) => payload.len() == 0,
                    None => false,
                };
                if !committed_empty {
                    proof {
                        assert(!self.ctx.post.nullifier_committed_empty(nf@));
                        lemma_nullifiers_spec_fault(
                            self.ctx,
                            keys_changed@,
                            *transaction,
                            i as int,
                        );
                    }
                    return Err(Error::UncommittedOrPayloadedNullifier);
                }
                proof {
                    assert(self.ctx.post.nullifier_committed_empty(nf@));
                    assert(!spend_fault(self.ctx, spends, i as int));
                }
                revealed.push(Nullifier { bytes: crate::bytes::copy_bytes(&nf.bytes) });
                i += 1;
            }
        }
        assert(forall|j: int| 0 <= j < spends.len() ==> !spend_fault(self.ctx, spends, j));
        let mut k: usize = 0;
        while k < keys_changed.len()
            invariant
                k <= keys_changed.len(),
                spends == transaction.spends(),
                revealed@.len() == spends.len(),
                forall|j: int|
                    0 <= j < spends.len() ==> (#[trigger] revealed@[j])@ == spends[j].nullifier@,
                forall|j: int| 0 <= j < spends.len() ==> !spend_fault(self.ctx, spends, j),
                forall|j: int|
                    0 <= j < k ==> match #[trigger] keys_changed@[j] {
                        ChangedKey::Nullifier(nf) => nullifier_declared(spends, nf@),
                        _ => true,
                    },
            decreases keys_changed.len() - k,
        {
            if let ChangedKey::Nullifier(nf) = &keys_changed[k] {
                if !nullifier_list_contains(&revealed, nf) {
                    proof {
                        assert forall|j: int| 0 <= j < spends.len()
                            implies (#[trigger] spends[j]).nullifier@ != nf@ by {
                            assert(revealed@[j]@ == spends[j].nullifier@);
                        }
                        assert(!nullifier_declared(spends, nf@));
                        assert(stray_nullifier_write(keys_changed@, spends));
                    }
                    return Err(Error::UnexpectedNullifierWrite);
                }
                proof {
                    let j = choose|j: int|
                        0 <= j < revealed@.len() && (#[trigger] revealed@[j])@ == nf@;
                    assert(spends[j].nullifier@ == nf@);
                    assert(nullifier_declared(spends, nf@));
                }
            }
            k += 1;
        }
        proof {
            assert(!stray_nullifier_write(keys_changed@, spends));
        }
        Ok(())
    }

    /// Checks that the post-state tree is the pre-state tree with exactly
    /// the bundle's output commitments appended, in order.
    pub fn valid_note_commitment_update(&self, transaction: &Transaction) -> (r: Result<
        (),
        Error,
    >)
        ensures
            r == tree_update_spec(self.ctx, *transaction),
    {
        let previous_tree = match &self.ctx.pre.tree {
            Some(t) => t,
            None => {
                return Err(Error::StorageReadFailure);
            },
        };
        let post_tree = match &self.ctx.post.tree {
            Some(t) => t,
            None => {
                return Err(Error::StorageReadFailure);
            },
        };
        let mut expected: CommitmentTree = previous_tree.duplicate();
        let ghost outs = transaction.outputs();
        if let Some(bundle) = &transaction.sapling_bundle {
            let mut i: usize = 0;
            while i < bundle.shielded_outputs.len()
                invariant
                    i <= bundle.shielded_outputs.len(),
                    transaction.sapling_bundle matches Some(b)
                        && b.shielded_outputs == bundle.shielded_outputs,
                    outs == transaction.outputs(),
                    self.ctx.pre.tree matches Some(t) && expected@ == appended_leaves(
                        t@,
                        outs.subrange(0, i as int),
                    ),
                    self.ctx.post.tree is Some,
                    i > 0 ==> self.ctx.pre.tree->Some_0@.len() + i <= MAX_TREE_LEAVES,
                decreases bundle.shielded_outputs.len() - i,
            {
                let cm = bundle.shielded_outputs[i].cmu.duplicate();
                let ghost before = expected@;
                let ok = expected.append(cm);
                if !ok {
                    proof {
                        let t = self.ctx.pre.tree->Some_0;
                        assert(before.len() == t@.len() + i);
                        assert(t@.len() + i >= MAX_TREE_LEAVES);
                        assert(outs.len() > 0 && t@.len() + outs.len() > MAX_TREE_LEAVES);
                    }
                    return Err(Error::CommitmentTreeMismatch);
                }
                proof {
                    assert(expected@ =~= appended_leaves(
                        self.ctx.pre.tree->Some_0@,
                        outs.subrange(0, i + 1),
                    ));
                }
                i += 1;
            }
        }
        proof {
            assert(outs.subrange(0, outs.len() as int) =~= outs);
            let t = self.ctx.pre.tree->Some_0;
            assert(expected@ == appended_leaves(t@, outs));
            assert(!(outs.len() > 0 && t@.len() + outs.len() > MAX_TREE_LEAVES));
        }
        if expected.eq_tree(post_tree) {
            Ok(())
        } else {
            Err(Error::CommitmentTreeMismatch)
        }
    }
}

} // verus!
