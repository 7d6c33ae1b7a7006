//! A shielded-pool validity predicate: the state-transition rule a ledger
//! runs against every transaction that touches a privacy-preserving token
//! pool. It reconciles the transaction's shielded bundle (spend, output and
//! convert descriptions over a note-commitment tree and a nullifier set)
//! with its transparent bundle (public, epoch-tagged pseudo-asset transfers)
//! and with the ledger's pre- and post-state storage snapshots, rejecting
//! any transaction that could double-spend, backdate value, forge balances,
//! or siphon fees from the pool.

pub mod amount;
pub mod asset;
pub mod balance;
pub mod bytes;
pub mod error;
pub mod hashes;
pub mod kv;
pub mod laws;
pub mod sapling;
pub mod state;
pub mod transparent;
pub mod tree;
pub mod tx;
pub mod types;
pub mod value_sum;
pub mod vp;
