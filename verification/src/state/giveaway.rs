//! A giveaway: its timing windows, counters, reveal aggregate, remediation
//! window, settlement flags and the fee and payout arithmetic.
use vstd::prelude::*;
use crate::bytes::Pubkey;
use crate::constants::{
    DEFAULT_REMEDIATION_WINDOW_SECS, MAX_ACTIVE_DURATION_SECS, MAX_UPLOAD_DURATION_SECS,
    MAX_WINNERS, MIN_ACTIVE_DURATION_SECS, MIN_UPLOAD_DURATION_SECS, MIN_WINNERS,
};
use crate::error::GiveawayError;

verus! {

/// Current serialized Giveaway account layout version.
pub const GIVEAWAY_ACCOUNT_VERSION: u16 = 1;

/// Status of a giveaway instance.
#[derive(Debug, Clone, Copy, PartialEq, Eq, Structural)]
pub enum GiveawayStatus {
    /// Not settled; the phase follows from the timers.
    Active,
    /// Closed and settled.
    Settled,
}

/// Individual giveaway state.
#[derive(Clone, Copy)]
pub struct Giveaway {
    pub id: u64,
    pub config: Pubkey,
    pub creator: Pubkey,
    pub vault: Pubkey,
    pub status: GiveawayStatus,
    pub total_payout_lamports: u64,
    pub number_of_winners: u32,
    pub service_fee_bps: u16,
    pub created_at_unix: i64,
    pub active_start_unix: i64,
    pub active_deadline_unix: i64,
    pub upload_start_unix: i64,
    pub upload_deadline_unix: i64,
    pub settlement_start_unix: i64,
    pub participants_count: u64,
    pub attested_count: u64,
    pub provider_uploaded_count: u64,
    pub poc_aggregate_hash: [u8; 32],
    pub uploads_complete: bool,
    pub disqualified_count: u64,
    pub winners_computed: bool,
    pub winners_locked: bool,
    pub recompute_version: u32,
    pub settled: bool,
    pub remediation_start_unix: i64,
    pub remediation_deadline_unix: i64,
    pub account_version: u16,
    pub reserved: [u8; 110],
}

/// `a - b`, clamped to the `i64` range.
pub open spec fn spec_saturating_sub_i64(a: i64, b: i64) -> i64 {
    if a - b > i64::MAX {
        i64::MAX
    } else if a - b < i64::MIN {
        i64::MIN
    } else {
        (a - b) as i64
    }
}

/// `i64::saturating_sub`.
pub fn saturating_sub_i64(a: i64, b: i64) -> (r: i64)
    ensures
        r == spec_saturating_sub_i64(a, b),
{
    match a.checked_sub(b) {
        Some(v) => v,
        None => if b < 0 {
            i64::MAX
        } else {
            i64::MIN
        },
    }
}

/// The service fee: `total * bps / 10000`, computed in 128 bits and cast to
/// 64 bits.
pub open spec fn spec_service_fee(total_payout_lamports: u64, service_fee_bps: u16) -> u64 {
    ((total_payout_lamports as int * service_fee_bps as int) / 10_000) as u64
}

/// What the winners share: the deposit less the service fee, saturating at 0.
pub open spec fn spec_winners_pool(total_payout_lamports: u64, service_fee_bps: u16) -> u64 {
    let fee = spec_service_fee(total_payout_lamports, service_fee_bps);
    if fee > total_payout_lamports {
        0
    } else {
        (total_payout_lamports - fee) as u64
    }
}

/// The settlement-readiness rule: the upload window elapsed, every
/// participant attested, or all attested reveals are included.
pub open spec fn spec_ready_for_settlement(g: Giveaway, current_time: i64) -> bool {
    ||| current_time >= g.upload_deadline_unix
    ||| (g.participants_count > 0 && g.attested_count == g.participants_count)
    ||| g.uploads_complete
}

/// Some attested reveals are not yet included.
pub open spec fn spec_missing_attested_reveals(g: Giveaway) -> bool {
    g.attested_count > 0 && g.provider_uploaded_count < g.attested_count
}

/// Every attested reveal is included.
pub open spec fn spec_attested_reveals_complete(g: Giveaway) -> bool {
    g.attested_count > 0 && g.provider_uploaded_count >= g.attested_count
}

/// The remediation window is open and reveals are still missing.
pub open spec fn spec_remediation_active(g: Giveaway, current_time: i64) -> bool {
    &&& g.remediation_start_unix > 0
    &&& g.remediation_deadline_unix > 0
    &&& current_time <= g.remediation_deadline_unix
    &&& spec_missing_attested_reveals(g)
}

/// The remediation window closed with reveals still missing.
pub open spec fn spec_remediation_expired(g: Giveaway, current_time: i64) -> bool {
    &&& g.remediation_deadline_unix > 0
    &&& current_time > g.remediation_deadline_unix
    &&& spec_missing_attested_reveals(g)
}

/// The giveaway's timing parameters are within the protocol bounds.
pub open spec fn spec_valid_timing(
    active_start_unix: i64,
    active_deadline_unix: i64,
    upload_duration_secs: u32,
) -> bool {
    let active = spec_saturating_sub_i64(active_deadline_unix, active_start_unix);
    &&& active_start_unix < active_deadline_unix
    &&& active >= MIN_ACTIVE_DURATION_SECS
    &&& active <= MAX_ACTIVE_DURATION_SECS
    &&& MIN_UPLOAD_DURATION_SECS <= upload_duration_secs <= MAX_UPLOAD_DURATION_SECS
}

impl Giveaway {
    /// Serialized size of the account, discriminator included.
    pub const MAX_SIZE: usize = 8 + 8 + 32 + 32 + 32 + 1 + 8 + 4 + 2 + 8 + 8 + 8 + 8 + 8 + 8 + 8 + 8
        + 8 + 32 + 1 + 8 + 1 + 1 + 4 + 1 + 8 + 8 + 2 + 110;

    /// Sets up a new giveaway; the upload window opens at the participation
    /// deadline and lasts `upload_duration_secs`.
    pub fn initialize(
        &mut self,
        id: u64,
        config: Pubkey,
        creator: Pubkey,
        vault: Pubkey,
        total_payout_lamports: u64,
        number_of_winners: u32,
        service_fee_bps: u16,
        active_start_unix: i64,
        active_deadline_unix: i64,
        upload_duration_secs: u32,
        current_time: i64,
    )
        requires
            active_deadline_unix + upload_duration_secs <= i64::MAX,
        ensures
            final(self).poc_aggregate_hash@ == Seq::new(32, |i: int| 0u8),
            final(self).reserved@ == Seq::new(110, |i: int| 0u8),
            *final(self) == (Giveaway {
                id,
                config,
                creator,
                vault,
                status: GiveawayStatus::Active,
                total_payout_lamports,
                number_of_winners,
                service_fee_bps,
                created_at_unix: current_time,
                active_start_unix,
                active_deadline_unix,
                upload_start_unix: active_deadline_unix,
                upload_deadline_unix: (active_deadline_unix + upload_duration_secs) as i64,
                settlement_start_unix: 0,
                participants_count: 0,
                attested_count: 0,
                provider_uploaded_count: 0,
                poc_aggregate_hash: final(self).poc_aggregate_hash,
                uploads_complete: false,
                disqualified_count: 0,
                winners_computed: false,
                winners_locked: false,
                recompute_version: 0,
                settled: false,
                remediation_start_unix: 0,
                remediation_deadline_unix: 0,
                account_version: GIVEAWAY_ACCOUNT_VERSION,
                reserved: final(self).reserved,
            }),
    {
        self.id = id;
        self.config = config;
        self.creator = creator;
        self.vault = vault;
        self.status = GiveawayStatus::Active;
        self.total_payout_lamports = total_payout_lamports;
        self.number_of_winners = number_of_winners;
        self.service_fee_bps = service_fee_bps;
        self.created_at_unix = current_time;
        self.active_start_unix = active_start_unix;
        self.active_deadline_unix = active_deadline_unix;
        self.upload_start_unix = active_deadline_unix;
        self.upload_deadline_unix = active_deadline_unix + upload_duration_secs as i64;
        self.settlement_start_unix = 0;
        self.participants_count = 0;
        self.attested_count = 0;
        self.provider_uploaded_count = 0;
        self.poc_aggregate_hash = [0u8; 32];
        self.uploads_complete = false;
        self.disqualified_count = 0;
        self.winners_computed = false;
        self.winners_locked = false;
        self.recompute_version = 0;
        self.settled = false;
        self.remediation_start_unix = 0;
        self.remediation_deadline_unix = 0;
        self.account_version = GIVEAWAY_ACCOUNT_VERSION;
        self.reserved = [0u8; 110];
        assert(self.poc_aggregate_hash@ =~= Seq::new(32, |i: int| 0u8));
        assert(self.reserved@ =~= Seq::new(110, |i: int| 0u8));
    }

    /// Whether participation is open at `current_time`.
    pub fn is_in_active_phase(&self, current_time: i64) -> (r: bool)
        ensures
            r == (current_time >= self.active_start_unix && current_time
                < self.active_deadline_unix),
    {
        current_time >= self.active_start_unix && current_time < self.active_deadline_unix
    }

    /// Whether the upload/attestation window is open at `current_time`.
    pub fn is_in_upload_phase(&self, current_time: i64) -> (r: bool)
        ensures
            r == (current_time >= self.upload_start_unix && current_time
                < self.upload_deadline_unix),
    {
        current_time >= self.upload_start_unix && current_time < self.upload_deadline_unix
    }

    /// Whether winner finalization may start.
    pub fn is_ready_for_settlement(&self, current_time: i64) -> (r: bool)
        ensures
            r == spec_ready_for_settlement(*self, current_time),
    {
        let upload_elapsed = current_time >= self.upload_deadline_unix;
        let all_attested = self.participants_count > 0 && self.attested_count
            == self.participants_count;
        upload_elapsed || all_attested || self.uploads_complete
    }

    /// The phase name at `current_time`: settled, remediation, active,
    /// upload or settlement, in that order of precedence.
    pub fn get_phase(&self, current_time: i64) -> (phase: &'static str)
        ensures
            self.settled ==> phase@ == "settled"@,
            !self.settled && spec_remediation_active(*self, current_time) ==> phase@
                == "remediation"@,
            !self.settled && !spec_remediation_active(*self, current_time) && (current_time
                >= self.active_start_unix && current_time < self.active_deadline_unix) ==> phase@
                == "active"@,
            !self.settled && !spec_remediation_active(*self, current_time) && !(current_time
                >= self.active_start_unix && current_time < self.active_deadline_unix) && (
            current_time >= self.upload_start_unix && current_time < self.upload_deadline_unix)
                ==> phase@ == "upload"@,
            !self.settled && !spec_remediation_active(*self, current_time) && !(current_time
                >= self.active_start_unix && current_time < self.active_deadline_unix) && !(
            current_time >= self.upload_start_unix && current_time < self.upload_deadline_unix)
                ==> phase@ == "settlement"@,
    {
        if self.settled {
            "settled"
        } else if self.remediation_active(current_time) {
            "remediation"
        } else if self.is_in_active_phase(current_time) {
            "active"
        } else if self.is_in_upload_phase(current_time) {
            "upload"
        } else {
            "settlement"
        }
    }

    /// Counts a new participant.
    pub fn add_participant(&mut self) -> (result: Result<(), GiveawayError>)
        ensures
            old(self).participants_count == u64::MAX ==> result == Err::<(), _>(
                GiveawayError::MathOverflow,
            ) && *final(self) == *old(self),
            old(self).participants_count < u64::MAX ==> result is Ok && *final(self) == (Giveaway {
                participants_count: (old(self).participants_count + 1) as u64,
                ..*old(self)
            }),
    {
        match self.participants_count.checked_add(1) {
            Some(next) => {
                self.participants_count = next;
                Ok(())
            },
            None => Err(GiveawayError::MathOverflow),
        }
    }

    /// Uncounts a participant, never going below zero.
    pub fn remove_participant(&mut self)
        ensures
            *final(self) == (Giveaway {
                participants_count: if old(self).participants_count > 0 {
                    (old(self).participants_count - 1) as u64
                } else {
                    0
                },
                ..*old(self)
            }),
    {
        if self.participants_count > 0 {
            self.participants_count = self.participants_count - 1;
        }
    }

    /// Counts an attestation.
    pub fn add_attestation(&mut self) -> (result: Result<(), GiveawayError>)
        ensures
            old(self).attested_count == u64::MAX ==> result == Err::<(), _>(
                GiveawayError::MathOverflow,
            ) && *final(self) == *old(self),
            old(self).attested_count < u64::MAX ==> result is Ok && *final(self) == (Giveaway {
                attested_count: (old(self).attested_count + 1) as u64,
                ..*old(self)
            }),
    {
        match self.attested_count.checked_add(1) {
            Some(next) => {
                self.attested_count = next;
                Ok(())
            },
            None => Err(GiveawayError::MathOverflow),
        }
    }

    /// Counts `count` included reveals, stores the new aggregate and
    /// recomputes whether every attested reveal is in.
    pub fn add_uploaded_reveals(&mut self, count: u64, aggregate_hash: [u8; 32]) -> (result: Result<
        (),
        GiveawayError,
    >)
        ensures
            old(self).provider_uploaded_count + count > u64::MAX ==> result == Err::<(), _>(
                GiveawayError::MathOverflow,
            ) && *final(self) == *old(self),
            old(self).provider_uploaded_count + count <= u64::MAX ==> result is Ok && *final(self)
                == (Giveaway {
                provider_uploaded_count: (old(self).provider_uploaded_count + count) as u64,
                poc_aggregate_hash: aggregate_hash,
                uploads_complete: old(self).attested_count > 0 && old(
                    self,
                ).provider_uploaded_count + count >= old(self).attested_count,
                ..*old(self)
            }),
    {
        let next = match self.provider_uploaded_count.checked_add(count) {
            Some(next) => next,
            None => {
                return Err(GiveawayError::MathOverflow);
            },
        };
        self.provider_uploaded_count = next;
        self.poc_aggregate_hash = aggregate_hash;
        self.uploads_complete = self.attested_count > 0 && self.provider_uploaded_count
            >= self.attested_count;
        Ok(())
    }

    /// Whether some attested reveals have not been included yet.
    pub fn has_missing_attested_reveals(&self) -> (r: bool)
        ensures
            r == spec_missing_attested_reveals(*self),
    {
        self.attested_count > 0 && self.provider_uploaded_count < self.attested_count
    }

    /// Whether every attested reveal has been included.
    pub fn attested_reveals_complete(&self) -> (r: bool)
        ensures
            r == spec_attested_reveals_complete(*self),
    {
        self.attested_count > 0 && self.provider_uploaded_count >= self.attested_count
    }

    /// Opens the remediation window, once.
    pub fn begin_remediation(&mut self, current_time: i64)
        requires
            old(self).remediation_start_unix == 0 ==> current_time + DEFAULT_REMEDIATION_WINDOW_SECS
                <= i64::MAX,
        ensures
            old(self).remediation_start_unix == 0 ==> *final(self) == (Giveaway {
                remediation_start_unix: current_time,
                remediation_deadline_unix: (current_time + DEFAULT_REMEDIATION_WINDOW_SECS) as i64,
                ..*old(self)
            }),
            old(self).remediation_start_unix != 0 ==> *final(self) == *old(self),
    {
        if self.remediation_start_unix == 0 {
            self.remediation_start_unix = current_time;
            self.remediation_deadline_unix = current_time + DEFAULT_REMEDIATION_WINDOW_SECS;
        }
    }

    /// Whether the remediation window is open with reveals still missing.
    pub fn remediation_active(&self, current_time: i64) -> (r: bool)
        ensures
            r == spec_remediation_active(*self, current_time),
    {
        self.remediation_start_unix > 0 && self.remediation_deadline_unix > 0 && current_time
            <= self.remediation_deadline_unix && self.has_missing_attested_reveals()
    }

    /// Whether remediation expired with reveals still missing.
    pub fn remediation_expired(&self, current_time: i64) -> (r: bool)
        ensures
            r == spec_remediation_expired(*self, current_time),
    {
        self.remediation_deadline_unix > 0 && current_time > self.remediation_deadline_unix
            && self.has_missing_attested_reveals()
    }

    /// Counts a disqualification.
    pub fn disqualify_participant(&mut self) -> (result: Result<(), GiveawayError>)
        ensures
            old(self).disqualified_count == u64::MAX ==> result == Err::<(), _>(
                GiveawayError::MathOverflow,
            ) && *final(self) == *old(self),
            old(self).disqualified_count < u64::MAX ==> result is Ok && *final(self) == (Giveaway {
                disqualified_count: (old(self).disqualified_count + 1) as u64,
                ..*old(self)
            }),
    {
        match self.disqualified_count.checked_add(1) {
            Some(next) => {
                self.disqualified_count = next;
                Ok(())
            },
            None => Err(GiveawayError::MathOverflow),
        }
    }

    /// Marks winners computed and bumps the recompute version. The flag is
    /// set before the version is checked, so it stays set on overflow.
    pub fn mark_winners_computed(&mut self) -> (result: Result<(), GiveawayError>)
        ensures
            old(self).recompute_version == u32::MAX ==> result == Err::<(), _>(
                GiveawayError::MathOverflow,
            ) && *final(self) == (Giveaway { winners_computed: true, ..*old(self) }),
            old(self).recompute_version < u32::MAX ==> result is Ok && *final(self) == (Giveaway {
                winners_computed: true,
                recompute_version: (old(self).recompute_version + 1) as u32,
                ..*old(self)
            }),
    {
        self.winners_computed = true;
        match self.recompute_version.checked_add(1) {
            Some(next) => {
                self.recompute_version = next;
                Ok(())
            },
            None => Err(GiveawayError::MathOverflow),
        }
    }

    /// Locks the winner set.
    pub fn lock_winners(&mut self)
        ensures
            *final(self) == (Giveaway { winners_locked: true, ..*old(self) }),
    {
        self.winners_locked = true;
    }

    /// Records when settlement began, once.
    pub fn begin_settlement(&mut self, current_time: i64)
        ensures
            *final(self) == (Giveaway {
                settlement_start_unix: if old(self).settlement_start_unix == 0 {
                    current_time
                } else {
                    old(self).settlement_start_unix
                },
                ..*old(self)
            }),
    {
        if self.settlement_start_unix == 0 {
            self.settlement_start_unix = current_time;
        }
    }

    /// Marks the giveaway settled.
    pub fn settle(&mut self)
        ensures
            *final(self) == (Giveaway {
                status: GiveawayStatus::Settled,
                settled: true,
                ..*old(self)
            }),
    {
        self.status = GiveawayStatus::Settled;
        self.settled = true;
    }

    /// Moves the participation deadline; the upload window follows it.
    pub fn extend_active_deadline(&mut self, new_deadline_unix: i64, upload_duration_secs: u32)
        requires
            new_deadline_unix + upload_duration_secs <= i64::MAX,
        ensures
            *final(self) == (Giveaway {
                active_deadline_unix: new_deadline_unix,
                upload_start_unix: new_deadline_unix,
                upload_deadline_unix: (new_deadline_unix + upload_duration_secs) as i64,
                ..*old(self)
            }),
    {
        self.active_deadline_unix = new_deadline_unix;
        self.upload_start_unix = new_deadline_unix;
        self.upload_deadline_unix = new_deadline_unix + upload_duration_secs as i64;
    }

    /// Per-winner payout before settlement: the winners pool split evenly
    /// over the requested winners (0 when there are none).
    pub fn calculate_per_winner_payout(&self) -> (payout: u64)
        ensures
            payout == if self.number_of_winners == 0 {
                0
            } else {
                (spec_winners_pool(self.total_payout_lamports, self.service_fee_bps)
                    / self.number_of_winners as u64) as u64
            },
    {
        if self.number_of_winners == 0 {
            0
        } else {
            self.calculate_winners_pool() / self.number_of_winners as u64
        }
    }

    /// The service fee snapshotted on this giveaway.
    pub fn calculate_service_fee(&self) -> (fee: u64)
        ensures
            fee == spec_service_fee(self.total_payout_lamports, self.service_fee_bps),
    {
        let total = self.total_payout_lamports as u128;
        let bps = self.service_fee_bps as u128;
        assert(total * bps <= u64::MAX as int * u16::MAX as int) by (nonlinear_arith)
            requires
                total <= u64::MAX,
                bps <= u16::MAX,
        ;
        let wide = total * bps;
        let quotient = wide / 10_000u128;
        (#[verifier::truncate] (quotient as u64))
    }

    /// The payout pool left for winners after the service fee.
    pub fn calculate_winners_pool(&self) -> (pool: u64)
        ensures
            pool == spec_winners_pool(self.total_payout_lamports, self.service_fee_bps),
    {
        self.total_payout_lamports.saturating_sub(self.calculate_service_fee())
    }

    /// Total funding required at creation: the payout, fee included.
    pub fn calculate_total_required_funding(&self) -> (funding: u64)
        ensures
            funding == self.total_payout_lamports,
    {
        self.total_payout_lamports
    }

    /// Participants not disqualified, saturating at zero.
    pub fn get_eligible_participants_count(&self) -> (count: u64)
        ensures
            count == if self.disqualified_count > self.participants_count {
                0
            } else {
                (self.participants_count - self.disqualified_count) as u64
            },
    {
        self.participants_count.saturating_sub(self.disqualified_count)
    }

    /// Whether the winner count is within `MIN_WINNERS..=MAX_WINNERS`.
    pub fn validate_winner_count(number_of_winners: u32) -> (valid: bool)
        ensures
            valid == (MIN_WINNERS <= number_of_winners <= MAX_WINNERS),
    {
        MIN_WINNERS <= number_of_winners && number_of_winners <= MAX_WINNERS
    }

    /// Whether the active window and upload duration are within bounds.
    pub fn validate_timing(
        active_start_unix: i64,
        active_deadline_unix: i64,
        upload_duration_secs: u32,
    ) -> (valid: bool)
        ensures
            valid == spec_valid_timing(active_start_unix, active_deadline_unix, upload_duration_secs),
    {
        let active_duration_secs = saturating_sub_i64(active_deadline_unix, active_start_unix);
        active_start_unix < active_deadline_unix && active_duration_secs
            >= MIN_ACTIVE_DURATION_SECS as i64 && active_duration_secs
            <= MAX_ACTIVE_DURATION_SECS as i64 && MIN_UPLOAD_DURATION_SECS <= upload_duration_secs
            && upload_duration_secs <= MAX_UPLOAD_DURATION_SECS
    }
}

/// Locking is permanent: along any run of giveaway states in which every
/// step keeps a set lock (each instruction's contract states that it does),
/// a giveaway locked at one point is locked at every later point.
pub proof fn lemma_lock_is_permanent(states: Seq<Giveaway>, i: int, j: int)
    requires
        forall|k: int|
            0 <= k < states.len() - 1 ==> (#[trigger] states[k]).winners_locked
                ==> states[k + 1].winners_locked,
        0 <= i <= j < states.len(),
        states[i].winners_locked,
    ensures
        states[j].winners_locked,
    decreases j - i,
{
    if i < j {
        assert(states[i].winners_locked ==> states[i + 1].winners_locked);
        lemma_lock_is_permanent(states, i + 1, j);
    }
}

/// A giveaway is ready for finalization exactly when its upload window has
/// closed, every participant attested, or all attested reveals are
/// included (`uploads_complete`); in particular complete uploads never wait
/// for the upload deadline.
pub proof fn lemma_ready_for_settlement(g: Giveaway, t: i64)
    ensures
        g.uploads_complete ==> spec_ready_for_settlement(g, t),
        t >= g.upload_deadline_unix ==> spec_ready_for_settlement(g, t),
        g.participants_count > 0 && g.attested_count == g.participants_count
            ==> spec_ready_for_settlement(g, t),
        spec_ready_for_settlement(g, t) ==> (t >= g.upload_deadline_unix || g.uploads_complete
            || (g.participants_count > 0 && g.attested_count == g.participants_count)),
{
}

} // verus!
