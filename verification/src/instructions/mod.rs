//! One module per program instruction: the accounts each one reads, the
//! checks it makes in order, the state it leaves and the events it reports.

pub mod lock_winners;
pub mod finalize_winners;
pub mod settle_payout_batch;
pub mod attest_uploaded;
pub mod upload_reveals;
pub mod initialize;
pub mod update_service_charge;
pub mod recompute_winners;
pub mod extend_active_deadline;
pub mod disqualify_participant;
pub mod begin_upload_phase;
pub mod close_participant;
pub mod settle_giveaway;
pub mod settle_no_eligible_giveaway;
pub mod attest_reveal;
pub mod participate;
pub mod create_giveaway;
