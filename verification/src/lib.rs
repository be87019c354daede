//! A staged Merkle-proof distribution engine.
//!
//! An owner publishes, per round ("stage"), a Merkle root committing to a set
//! of `(identity, amount)` allocations; a recipient later submits a proof to
//! redeem its allocation exactly once.  The tree uses domain-separated
//! Keccak-256 hashing with sorted pairs: a leaf is
//! `keccak(0x00 || keccak("identity:amount"))` and an interior node is
//! `keccak(0x01 || lo || hi)` where `lo`, `hi` are the two children sorted by
//! unsigned byte comparison.  Leaves commit to both the identity and the
//! amount; proofs built for an identity-only scheme do not verify here.

pub mod bytes;
pub mod engine;
pub mod hashtree;
pub mod hexroot;
pub mod ledger;
pub mod membership;
pub mod registry;
