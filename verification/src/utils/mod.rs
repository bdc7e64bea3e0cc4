//! Protocol helpers: hashing-based entropy and selection, validation, PDA
//! derivation, participant-set checks and lamport arithmetic.

pub mod crypto;
pub mod account;
pub mod validation;
pub mod pda;
pub mod participant_set;
