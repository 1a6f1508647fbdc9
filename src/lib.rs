//! Ledger-side state transitions for a shielded value-transfer contract and a
//! DAO-governance contract built on top of it.
//!
//! - `field`: field elements as limbs, byte encoding, hashing.
//! - `merkle`: the append-only commitment tree with authentication paths.
//! - `crypto`: keys, additive value commitments, payload encryption.
//! - `note`: notes, coin commitments and nullifiers.
//! - `money`, `dao`: each contract's state, call data, validation and update.
//! - `ledger`: the state registry and the atomic transaction pipeline.
//! - `wallet`, `builder`: wallet-side bookkeeping and call assembly.

pub mod field;
pub mod merkle;
pub mod crypto;
pub mod note;
pub mod error;
pub mod money;
pub mod dao;
pub mod ledger;
pub mod wallet;
pub mod builder;
