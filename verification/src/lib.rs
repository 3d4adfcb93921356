//! Verification of BABE slot-leader-election block headers.
//!
//! The crate checks whether a candidate block header carries a legitimate
//! slot claim for the epoch it falls in, tracks epoch descriptors as they
//! evolve across competing forks, and orders competing chain tips.
//! Cryptographic primitives (the VRF, the seal signature, hashing) are
//! external capabilities: the library states exactly which checks they must
//! answer and decides from their answers.

pub mod codec;
pub mod epochs;
pub mod laws;
pub mod select;
pub mod threshold;
pub mod types;
pub mod verify;

pub use epochs::{EpochTracker, PendingVerify, RandomnessSource};
pub use select::{select, ChainTip, Selection};
pub use types::{BabeGenesisConfiguration, VerifyError};
pub use verify::{verify_header, VerifyConfig};
