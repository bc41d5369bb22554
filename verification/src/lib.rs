//! Secp256k1 signing for validators, Ethereum address derivation, and the
//! decision logic of the staking-contract client and the node's start command.
pub mod abi;
pub mod keys;
pub mod laws;
pub mod model;
pub mod primitives;
pub mod staking;
pub mod start;

pub use keys::{PrivateKey, PublicKey, Secp256k1Error, Signature};
