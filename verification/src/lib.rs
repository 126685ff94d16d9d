//! A hybrid proof-of-work / proof-of-stake permissioned blockchain core:
//! deterministic block hashing with a PoW nonce search, stake-weighted leader
//! selection committed to by a staker-set hash, ECDSA-signed blocks, an
//! append-only chain store with candidate validation and finality, a slashing
//! arbiter, and the wire-level gossip protocol around it.

pub mod auth;
pub mod block;
pub mod chain;
pub mod contract;
pub mod governance;
pub mod hashing;
pub mod kvmap;
pub mod laws;
pub mod miner;
pub mod p2p;
pub mod pow;
pub mod runtime;
pub mod signer;
pub mod staking;
pub mod token;
pub mod transaction;
