//! Account state of the giveaways program.

pub mod finalization_ledger;
pub mod radix_selection;
pub mod giveaway;
pub mod participant;
pub mod winners_ledger;
pub mod config;
