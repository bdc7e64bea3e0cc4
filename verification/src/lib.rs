//! Proof-of-chance giveaways: the verified state machine, entropy pipeline,
//! radix top-K winner selection and settlement arithmetic of a Solana
//! giveaways program.

pub mod address;
pub mod bytes;
pub mod constants;
pub mod error;
pub mod events;
pub mod hashing;
pub mod instructions;
pub mod utils;
pub mod state;
