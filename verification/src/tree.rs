//! The note-commitment tree, abstracted to what this predicate checks of it.
//!
//! An incremental Merkle tree is determined by its sequence of leaves, and
//! the structural equality the predicate relies on is exactly equality of
//! those sequences: the post-state tree must be the pre-state tree with the
//! bundle's output commitments appended, in order, nothing more or less.

use vstd::prelude::*;
use crate::bytes::bytes_eq;
use crate::types::NoteCommitment;

verus! {

/// The tree is full once it holds this many leaves; appending then fails.
pub const MAX_TREE_LEAVES: u64 = 0x1_0000_0000;

pub struct CommitmentTree {
    pub leaves: Vec<NoteCommitment>,
}

impl View for CommitmentTree {
    type V = Seq<Seq<u8>>;

    open spec fn view(&self) -> Seq<Seq<u8>> {
        self.leaves@.map_values(|c: NoteCommitment| c@)
    }
}

impl CommitmentTree {
    /// A fresh tree with the same leaves.
    pub fn duplicate(&self) -> (r: CommitmentTree)
        ensures
            r@ == self@,
    {
        let mut leaves: Vec<NoteCommitment> = Vec::new();
        let mut i: usize = 0;
        while i < self.leaves.len()
            invariant
                i <= self.leaves.len(),
                leaves@.len() == i,
                forall|j: int| 0 <= j < i ==> leaves@[j]@ == self.leaves@[j]@,
            decreases self.leaves.len() - i,
        {
            leaves.push(self.leaves[i].duplicate());
            i += 1;
        }
        let r = CommitmentTree { leaves };
        proof {
            assert(r@ =~= self@);
        }
        r
    }

    /// Appends one commitment; fails exactly when the tree is full, leaving
    /// it unchanged.
    pub fn append(&mut self, cm: NoteCommitment) -> (ok: bool)
        ensures
            ok == (old(self)@.len() < MAX_TREE_LEAVES),
            ok ==> final(self)@ == old(self)@.push(cm@),
            !ok ==> final(self)@ == old(self)@,
    {
        if (self.leaves.len() as u64) < MAX_TREE_LEAVES {
            self.leaves.push(cm);
            proof {
                assert(self@ =~= old(self)@.push(cm@));
            }
            true
        } else {
            false
        }
    }

    /// Structural equality: the same leaves in the same order.
    pub fn eq_tree(&self, other: &CommitmentTree) -> (r: bool)
        ensures
            r == (self@ == other@),
    {
        if self.leaves.len() != other.leaves.len() {
            proof {
                assert(self@.len() != other@.len());
            }
            return false;
        }
        let mut i: usize = 0;
        while i < self.leaves.len()
            invariant
                i <= self.leaves.len(),
                self@.len() == other@.len(),
                self.leaves.len() == self@.len(),
                forall|j: int| 0 <= j < i ==> self@[j] == other@[j],
            decreases self.leaves.len() - i,
        {
            if !bytes_eq(&self.leaves[i].bytes, &other.leaves[i].bytes) {
                assert(self@[i as int] != other@[i as int]);
                return false;
            }
            i += 1;
        }
        proof {
            assert(self@ =~= other@);
        }
        true
    }
}

} // verus!
