//! The fixed-size settlement root: threshold key, winner count, per-winner
//! amount, and the payout progress of a finalized giveaway.
use vstd::prelude::*;
use crate::bytes::Pubkey;
use crate::error::GiveawayError;

verus! {

/// Settlement root of one giveaway.
#[derive(Clone, Copy)]
pub struct WinnersLedger {
    pub giveaway: Pubkey,
    pub protocol_version: u16,
    pub threshold_key: [u8; 64],
    pub winners_commitment: [u8; 32],
    pub winners_count: u32,
    pub total_payout_lamports: u64,
    pub per_winner_lamports: u64,
    pub paid_count: u32,
    pub batches_processed: u32,
    pub recompute_version: u32,
    pub locked: bool,
    pub computed_at_unix: i64,
    pub locked_at_unix: i64,
    pub settlement_started_at_unix: i64,
    pub settlement_completed_at_unix: i64,
    pub reserved: [u8; 128],
}

impl WinnersLedger {
    /// Serialized size of the account, discriminator included.
    pub const SIZE: usize = 8 + 32 + 2 + 64 + 32 + 4 + 8 + 8 + 4 + 4 + 4 + 1 + 8 + 8 + 8 + 8 + 128;

    /// Size of the ledger account; it does not depend on the winner count.
    pub fn calculate_size(_winners_count: u32) -> (size: usize)
        ensures
            size == Self::SIZE,
    {
        Self::SIZE
    }

    /// Records the finalized winner set.
    pub fn initialize(
        &mut self,
        giveaway: Pubkey,
        threshold_key: [u8; 64],
        winners_commitment: [u8; 32],
        winners_count: u32,
        total_payout_lamports: u64,
        per_winner_lamports: u64,
        recompute_version: u32,
        current_time: i64,
    )
        ensures
            final(self).reserved@ == Seq::new(128, |i: int| 0u8),
            *final(self) == (WinnersLedger {
                giveaway,
                protocol_version: 2,
                threshold_key,
                winners_commitment,
                winners_count,
                total_payout_lamports,
                per_winner_lamports,
                paid_count: 0,
                batches_processed: 0,
                recompute_version,
                locked: false,
                computed_at_unix: current_time,
                locked_at_unix: 0,
                settlement_started_at_unix: 0,
                settlement_completed_at_unix: 0,
                reserved: final(self).reserved,
            }),
    {
        self.giveaway = giveaway;
        self.protocol_version = 2;
        self.threshold_key = threshold_key;
        self.winners_commitment = winners_commitment;
        self.winners_count = winners_count;
        self.total_payout_lamports = total_payout_lamports;
        self.per_winner_lamports = per_winner_lamports;
        self.paid_count = 0;
        self.batches_processed = 0;
        self.recompute_version = recompute_version;
        self.locked = false;
        self.computed_at_unix = current_time;
        self.locked_at_unix = 0;
        self.settlement_started_at_unix = 0;
        self.settlement_completed_at_unix = 0;
        self.reserved = [0u8; 128];
        assert(self.reserved@ =~= Seq::new(128, |i: int| 0u8));
    }

    /// Locks the winner set.
    pub fn lock(&mut self, current_time: i64)
        ensures
            *final(self) == (WinnersLedger {
                locked: true,
                locked_at_unix: current_time,
                ..*old(self)
            }),
    {
        self.locked = true;
        self.locked_at_unix = current_time;
    }

    /// Records when settlement started, once.
    pub fn start_settlement(&mut self, current_time: i64)
        ensures
            *final(self) == (WinnersLedger {
                settlement_started_at_unix: if old(self).settlement_started_at_unix == 0 {
                    current_time
                } else {
                    old(self).settlement_started_at_unix
                },
                ..*old(self)
            }),
    {
        if self.settlement_started_at_unix == 0 {
            self.settlement_started_at_unix = current_time;
        }
    }

    /// Counts one more paid winner; refused once every winner is paid.
    pub fn mark_winner_paid(&mut self) -> (result: Result<(), GiveawayError>)
        ensures
            old(self).paid_count >= old(self).winners_count ==> result == Err::<(), _>(
                GiveawayError::AlreadyPaid,
            ) && *final(self) == *old(self),
            old(self).paid_count < old(self).winners_count ==> result is Ok && *final(self) == (
            WinnersLedger { paid_count: (old(self).paid_count + 1) as u32, ..*old(self) }),
    {
        if !(self.paid_count < self.winners_count) {
            return Err(GiveawayError::AlreadyPaid);
        }
        match self.paid_count.checked_add(1) {
            Some(next) => {
                self.paid_count = next;
                Ok(())
            },
            None => Err(GiveawayError::MathOverflow),
        }
    }

    /// Counts one more processed batch.
    pub fn mark_batch_processed(&mut self) -> (result: Result<(), GiveawayError>)
        ensures
            old(self).batches_processed == u32::MAX ==> result == Err::<(), _>(
                GiveawayError::MathOverflow,
            ) && *final(self) == *old(self),
            old(self).batches_processed < u32::MAX ==> result is Ok && *final(self) == (
            WinnersLedger {
                batches_processed: (old(self).batches_processed + 1) as u32,
                ..*old(self)
            }),
    {
        match self.batches_processed.checked_add(1) {
            Some(next) => {
                self.batches_processed = next;
                Ok(())
            },
            None => Err(GiveawayError::MathOverflow),
        }
    }

    /// Whether every winner has been paid.
    pub fn is_settlement_complete(&self) -> (complete: bool)
        ensures
            complete == (self.paid_count == self.winners_count),
    {
        self.paid_count == self.winners_count
    }

    /// Records completion time when every winner has been paid.
    pub fn complete_settlement(&mut self, current_time: i64)
        ensures
            old(self).paid_count == old(self).winners_count ==> *final(self) == (WinnersLedger {
                settlement_completed_at_unix: current_time,
                ..*old(self)
            }),
            old(self).paid_count != old(self).winners_count ==> *final(self) == *old(self),
    {
        if self.is_settlement_complete() {
            self.settlement_completed_at_unix = current_time;
        }
    }

    /// Winners still to be paid, saturating at zero.
    pub fn get_unpaid_count(&self) -> (unpaid: u32)
        ensures
            unpaid == if self.paid_count > self.winners_count {
                0
            } else {
                (self.winners_count - self.paid_count) as u32
            },
    {
        self.winners_count.saturating_sub(self.paid_count)
    }

    /// Whether `winner_index` names one of the winners.
    pub fn validate_winner_index(&self, winner_index: u32) -> (valid: bool)
        ensures
            valid == (winner_index < self.winners_count),
    {
        winner_index < self.winners_count
    }
}

} // verus!
