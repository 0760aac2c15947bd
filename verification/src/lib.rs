//! Enumeration of BIP39 seed phrases by a counter, derivation of the BIP84
//! receiving addresses of each phrase, and the search for the phrase that
//! owns a given address.

pub mod address;
pub mod big_endian;
pub mod counter;
pub mod cracker;
pub mod derivation;
pub mod entropy;
pub mod error;
pub mod keys;
pub mod mnemonic;

pub use crate::cracker::{BtcWalletCracker, SearchOutcome, SearchPhase, SearchState, StepEvent};
pub use crate::error::CrackerError;
