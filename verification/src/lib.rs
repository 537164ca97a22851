//! Replicated transfer-ledger and reward-accounting core for a sharded,
//! leaderless storage network.
//!
//! A section of the network is run by a committee of Elder nodes. Each Elder
//! keeps an independent `Replica` of the section's transfer ledger; a
//! `SectionActor` gathers the Replicas' signature shares into threshold-signed
//! agreement proofs, the only artifact the ledger accepts as authoritative.
//! `RewardLedger` tracks per-node reward stages and issues payouts through the
//! same transfer path, and `ChurnCoordinator` carries the section across
//! elder-set changes without forking the ledger.
//!
//! Keys and signatures appear here in their canonical numeric form; producing
//! and checking the underlying cryptography belongs to the layers outside this
//! crate, as do routing, persistence and transport.

pub mod types;
pub mod ledger;
pub mod replica;
pub mod actor;
pub mod rewards;
pub mod churn;
pub mod duties;
pub mod metadata;
