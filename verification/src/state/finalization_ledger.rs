//! Fixed-size radix finalization state: aggregation of the eligible pool,
//! byte-wise radix passes that locate the top-K threshold key, resolution of
//! that key and the archival emission count.
use vstd::prelude::*;
use vstd::bytes::{spec_u32_from_le_bytes, spec_u32_to_le_bytes, u32_from_le_bytes, u32_to_le_bytes};
use crate::bytes::{agree_upto, append_bytes, Pubkey};
use crate::constants::{giveaway_pool_domain_v3, spec_giveaway_pool_domain_v3};
use crate::error::GiveawayError;
use crate::hashing::{sha256, spec_sha256};

verus! {

/// Version of the finalization protocol this ledger layout implements.
pub const FINALIZATION_PROTOCOL_VERSION: u16 = 4;

/// Phase: counting eligible participants and folding their commitment.
pub const PHASE_AGGREGATING: u8 = 0;

/// Phase: building one radix histogram per pass.
pub const PHASE_RADIX: u8 = 1;

/// Phase: picking out the threshold key.
pub const PHASE_RESOLVING: u8 = 2;

/// Phase: emitting every winner for replay.
pub const PHASE_EMITTING: u8 = 3;

/// Phase: finalization is done.
pub const PHASE_COMPLETED: u8 = 4;

/// Length in bytes of a candidate radix key.
pub const CANDIDATE_KEY_LEN: usize = 64;

/// Zero-copy finalization ledger (one per giveaway).
#[derive(Clone, Copy)]
pub struct FinalizationLedger {
    pub giveaway: Pubkey,
    pub protocol_version: u16,
    pub recompute_version: u32,
    pub phase: u8,
    pub required_count: u64,
    pub processed_count: u64,
    pub eligible_count: u64,
    pub target_winners: u32,
    pub seed: [u8; 32],
    pub participants_commitment: [u8; 32],
    pub prefix: [u8; 64],
    pub prefix_len: u8,
    pub remaining_rank: u64,
    pub histogram: [u64; 256],
    pub threshold_key: [u8; 64],
    pub threshold_found: u8,
    pub completed: u8,
    pub started_at_unix: i64,
    pub completed_at_unix: i64,
    pub reserved: [u8; 64],
}

/// Sixty-four zero bytes.
pub open spec fn zeros64() -> Seq<u8> {
    Seq::new(64, |i: int| 0u8)
}

/// Thirty-two zero bytes.
pub open spec fn zeros32() -> Seq<u8> {
    Seq::new(32, |i: int| 0u8)
}

/// An empty histogram.
pub open spec fn empty_histogram() -> Seq<u64> {
    Seq::new(256, |i: int| 0u64)
}

/// Sum of the first `n` histogram buckets.
pub open spec fn hist_sum(h: Seq<u64>, n: int) -> int
    decreases n,
{
    if n <= 0 {
        0
    } else {
        hist_sum(h, n - 1) + h[n - 1]
    }
}

/// Bucket `b` holds the `rank`-th key of the histogram.
pub open spec fn is_rank_bucket(h: Seq<u64>, rank: int, b: int) -> bool {
    0 <= b < 256 && hist_sum(h, b) < rank <= hist_sum(h, b + 1)
}

/// The histogram after a key is recorded: the key's next byte is counted
/// when the key extends the current prefix.
pub open spec fn spec_radix_histogram_after(
    h: Seq<u64>,
    prefix: Seq<u8>,
    prefix_len: u8,
    key: Seq<u8>,
) -> Seq<u64> {
    if prefix_len >= 64 || !agree_upto(key, prefix, prefix_len as int) {
        h
    } else {
        h.update(key[prefix_len as int] as int, (h[key[prefix_len as int] as int] + 1) as u64)
    }
}

/// A finished radix pass fixed byte `b` of the prefix.
pub open spec fn radix_pass_step(old: FinalizationLedger, new: FinalizationLedger, b: int) -> bool {
    let h = old.histogram@;
    &&& new.prefix@ == old.prefix@.update(old.prefix_len as int, b as u8)
    &&& new.histogram@ == empty_histogram()
    &&& new == FinalizationLedger {
        prefix: new.prefix,
        histogram: new.histogram,
        prefix_len: (old.prefix_len + 1) as u8,
        remaining_rank: (old.remaining_rank - hist_sum(h, b)) as u64,
        phase: if h[b] == 1 || old.prefix_len + 1 == 64 {
            PHASE_RESOLVING
        } else {
            old.phase
        },
        processed_count: 0,
        ..old
    }
}

/// The pass will find a bucket for the remaining rank and write it into the
/// prefix.
pub open spec fn radix_pass_writes_prefix(l: FinalizationLedger) -> bool {
    &&& l.remaining_rank > 0
    &&& l.remaining_rank <= hist_sum(l.histogram@, 256)
    &&& forall|b: int|
        is_rank_bucket(l.histogram@, l.remaining_rank as int, b) ==> hist_sum(l.histogram@, b + 1)
            <= u64::MAX
}

proof fn lemma_hist_sum_monotone(h: Seq<u64>, a: int, b: int)
    requires
        a <= b,
    ensures
        hist_sum(h, a) <= hist_sum(h, b),
    decreases b - a,
{
    if a < b {
        lemma_hist_sum_monotone(h, a, b - 1);
    }
}

/// The rank bucket, when it exists, is unique.
pub proof fn lemma_rank_bucket_unique(h: Seq<u64>, rank: int, b1: int, b2: int)
    requires
        is_rank_bucket(h, rank, b1),
        is_rank_bucket(h, rank, b2),
    ensures
        b1 == b2,
{
    if b1 < b2 {
        lemma_hist_sum_monotone(h, b1 + 1, b2);
    } else if b2 < b1 {
        lemma_hist_sum_monotone(h, b2 + 1, b1);
    }
}

impl FinalizationLedger {
    /// Serialized size: the 8-byte discriminator plus the `repr(C)` layout.
    pub const SIZE: usize = 8 + 2416;

    /// Size of the ledger account; it does not depend on the winner count.
    pub fn calculate_size(_target_winners: u32) -> (size: usize)
        ensures
            size == Self::SIZE,
    {
        Self::SIZE
    }

    /// Starts a finalization run.
    pub fn initialize(
        &mut self,
        giveaway: Pubkey,
        recompute_version: u32,
        required_count: u64,
        current_time: i64,
    )
        ensures
            final(self).seed@ == zeros32(),
            final(self).participants_commitment@ == zeros32(),
            final(self).prefix@ == zeros64(),
            final(self).histogram@ == empty_histogram(),
            final(self).threshold_key@ == zeros64(),
            final(self).reserved@ == zeros64(),
            *final(self) == (FinalizationLedger {
                giveaway,
                protocol_version: FINALIZATION_PROTOCOL_VERSION,
                recompute_version,
                phase: PHASE_AGGREGATING,
                required_count,
                processed_count: 0,
                eligible_count: 0,
                target_winners: 0,
                seed: final(self).seed,
                participants_commitment: final(self).participants_commitment,
                prefix: final(self).prefix,
                prefix_len: 0,
                remaining_rank: 0,
                histogram: final(self).histogram,
                threshold_key: final(self).threshold_key,
                threshold_found: 0,
                completed: 0,
                started_at_unix: current_time,
                completed_at_unix: 0,
                reserved: final(self).reserved,
            }),
    {
        self.giveaway = giveaway;
        self.protocol_version = FINALIZATION_PROTOCOL_VERSION;
        self.recompute_version = recompute_version;
        self.phase = PHASE_AGGREGATING;
        self.required_count = required_count;
        self.processed_count = 0;
        self.eligible_count = 0;
        self.target_winners = 0;
        self.seed = [0u8; 32];
        self.participants_commitment = [0u8; 32];
        self.prefix = [0u8; 64];
        self.prefix_len = 0;
        self.remaining_rank = 0;
        self.histogram = [0u64; 256];
        self.threshold_key = [0u8; 64];
        self.threshold_found = 0;
        self.completed = 0;
        self.started_at_unix = current_time;
        self.completed_at_unix = 0;
        self.reserved = [0u8; 64];
        assert(self.seed@ =~= zeros32());
        assert(self.participants_commitment@ =~= zeros32());
        assert(self.prefix@ =~= zeros64());
        assert(self.histogram@ =~= empty_histogram());
        assert(self.threshold_key@ =~= zeros64());
        assert(self.reserved@ =~= zeros64());
    }

    /// Counts one more processed participant in the current pass.
    pub fn record_processed(&mut self) -> (result: Result<(), GiveawayError>)
        ensures
            old(self).processed_count == u64::MAX ==> result == Err::<(), _>(
                GiveawayError::MathOverflow,
            ) && *final(self) == *old(self),
            old(self).processed_count < u64::MAX ==> result is Ok && *final(self) == (
            FinalizationLedger { processed_count: (old(self).processed_count + 1) as u64, ..*old(self) }),
    {
        match self.processed_count.checked_add(1) {
            Some(next) => {
                self.processed_count = next;
                Ok(())
            },
            None => Err(GiveawayError::MathOverflow),
        }
    }

    /// Counts one more eligible participant and folds its commitment leaf
    /// into the running pool commitment.
    pub fn record_eligible(&mut self, commitment_leaf: [u8; 32]) -> (result: Result<
        (),
        GiveawayError,
    >)
        ensures
            old(self).eligible_count == u64::MAX ==> result == Err::<(), _>(
                GiveawayError::MathOverflow,
            ) && *final(self) == *old(self),
            old(self).eligible_count < u64::MAX ==> result is Ok && final(self).participants_commitment@ == spec_sha256(
                spec_giveaway_pool_domain_v3() + old(self).participants_commitment@
                    + commitment_leaf@,
            ) && *final(self) == (FinalizationLedger {
                eligible_count: (old(self).eligible_count + 1) as u64,
                participants_commitment: final(self).participants_commitment,
                ..*old(self)
            }),
    {
        let next = match self.eligible_count.checked_add(1) {
            Some(next) => next,
            None => {
                return Err(GiveawayError::MathOverflow);
            },
        };
        self.eligible_count = next;
        let mut message = giveaway_pool_domain_v3();
        append_bytes(&mut message, self.participants_commitment.as_slice());
        append_bytes(&mut message, commitment_leaf.as_slice());
        self.participants_commitment = sha256(message.as_slice());
        Ok(())
    }

    /// Enters the radix phase for `target_winners` winners.
    pub fn begin_radix(&mut self, seed: [u8; 32], target_winners: u32)
        ensures
            final(self).histogram@ == empty_histogram(),
            *final(self) == (FinalizationLedger {
                phase: PHASE_RADIX,
                seed,
                target_winners,
                remaining_rank: target_winners as u64,
                processed_count: 0,
                histogram: final(self).histogram,
                ..*old(self)
            }),
    {
        self.phase = PHASE_RADIX;
        self.seed = seed;
        self.target_winners = target_winners;
        self.remaining_rank = target_winners as u64;
        self.reset_pass();
    }

    /// Counts a candidate key in the histogram when it extends the prefix.
    pub fn record_radix_key(&mut self, key: &[u8; 64]) -> (result: Result<(), GiveawayError>)
        ensures
            ({
                let old_l = *old(self);
                let counted = old_l.prefix_len < 64 && agree_upto(
                    key@,
                    old_l.prefix@,
                    old_l.prefix_len as int,
                );
                let bucket = key@[old_l.prefix_len as int] as int;
                if counted && old_l.histogram@[bucket] == u64::MAX {
                    result == Err::<(), _>(GiveawayError::MathOverflow) && *final(self) == old_l
                } else {
                    &&& result is Ok
                    &&& final(self).histogram@ == spec_radix_histogram_after(
                        old_l.histogram@,
                        old_l.prefix@,
                        old_l.prefix_len,
                        key@,
                    )
                    &&& *final(self) == (FinalizationLedger {
                        histogram: final(self).histogram,
                        ..old_l
                    })
                }
            }),
    {
        let len = self.prefix_len as usize;
        if len >= CANDIDATE_KEY_LEN || !self.matches_prefix(key) {
            return Ok(());
        }
        let bucket = key[len] as usize;
        let count = self.histogram[bucket];
        let next = match count.checked_add(1) {
            Some(next) => next,
            None => {
                return Err(GiveawayError::MathOverflow);
            },
        };
        self.histogram[bucket] = next;
        Ok(())
    }

    /// Closes a radix pass: fixes the next prefix byte at the bucket that holds
    /// the remaining rank and moves to resolution once that bucket has a single
    /// key or the prefix is full.
    pub fn finish_radix_pass(&mut self) -> (result: Result<(), GiveawayError>)
        requires
            old(self).prefix_len < 64 || !radix_pass_writes_prefix(*old(self)),
        ensures
            ({
                let old_l = *old(self);
                let h = old_l.histogram@;
                let r = old_l.remaining_rank as int;
                if r == 0 || hist_sum(h, 256) < r {
                    result == Err::<(), _>(GiveawayError::InvalidInstruction) && *final(self)
                        == old_l
                } else {
                    forall|b: int| #[trigger]
                        is_rank_bucket(h, r, b) ==> if hist_sum(h, b + 1) > u64::MAX {
                            result == Err::<(), _>(GiveawayError::MathOverflow) && *final(self)
                                == old_l
                        } else {
                            result is Ok && radix_pass_step(old_l, *final(self), b)
                        }
                }
            }),
            old(self).remaining_rank > 0 && hist_sum(old(self).histogram@, 256)
                >= old(self).remaining_rank ==> exists|b: int|
                is_rank_bucket(old(self).histogram@, old(self).remaining_rank as int, b),
    {
        let ghost h = self.histogram@;
        let ghost r = self.remaining_rank as int;
        if self.remaining_rank == 0 {
            return Err(GiveawayError::InvalidInstruction);
        }
        let mut before: u64 = 0;
        let mut bucket: usize = 0;
        while bucket < 256
            invariant
                bucket <= 256,
                *self == *old(self),
                old(self).prefix_len < 64 || !radix_pass_writes_prefix(*old(self)),
                h == self.histogram@,
                r == self.remaining_rank,
                r > 0,
                before as int == hist_sum(h, bucket as int),
                before < r,
            decreases 256 - bucket,
        {
            let count = self.histogram[bucket];
            let through = match before.checked_add(count) {
                Some(t) => t,
                None => {
                    assert(is_rank_bucket(h, r, bucket as int));
                    proof {
                        lemma_hist_sum_monotone(h, bucket + 1, 256);
                    }
                    assert forall|b: int| #[trigger] is_rank_bucket(h, r, b) implies b
                        == bucket by {
                        lemma_rank_bucket_unique(h, r, b, bucket as int);
                    }
                    return Err(GiveawayError::MathOverflow);
                },
            };
            if self.remaining_rank <= through {
                assert(is_rank_bucket(h, r, bucket as int));
                proof {
                    lemma_hist_sum_monotone(h, bucket + 1, 256);
                }
                assert forall|b: int| #[trigger] is_rank_bucket(h, r, b) implies b == bucket by {
                    lemma_rank_bucket_unique(h, r, b, bucket as int);
                }
                let ghost old_l = *self;
                assert(radix_pass_writes_prefix(old_l));
                let len = self.prefix_len as usize;
                self.prefix[len] = bucket as u8;
                self.prefix_len = match self.prefix_len.checked_add(1) {
                    Some(next) => next,
                    None => {
                        return Err(GiveawayError::MathOverflow);
                    },
                };
                self.remaining_rank = self.remaining_rank - before;
                if count == 1 || self.prefix_len as usize == CANDIDATE_KEY_LEN {
                    self.phase = PHASE_RESOLVING;
                }
                self.reset_pass();
                return Ok(());
            }
            before = through;
            bucket = bucket + 1;
        }
        assert forall|b: int| #[trigger] is_rank_bucket(h, r, b) implies false by {
            lemma_hist_sum_monotone(h, b + 1, 256);
        }
        Err(GiveawayError::InvalidInstruction)
    }

    /// Whether `key` starts with the current prefix.
    pub fn matches_prefix(&self, key: &[u8; 64]) -> (matches: bool)
        requires
            self.prefix_len <= 64,
        ensures
            matches == agree_upto(key@, self.prefix@, self.prefix_len as int),
    {
        let len = self.prefix_len as usize;
        let mut i: usize = 0;
        while i < len
            invariant
                len == self.prefix_len,
                len <= 64,
                i <= len,
                agree_upto(key@, self.prefix@, i as int),
            decreases len - i,
        {
            if key[i] != self.prefix[i] {
                return false;
            }
            i = i + 1;
        }
        true
    }

    /// Records the threshold key; a second resolution is refused.
    pub fn resolve_threshold(&mut self, key: [u8; 64]) -> (result: Result<(), GiveawayError>)
        ensures
            old(self).threshold_found != 0 ==> result == Err::<(), _>(
                GiveawayError::InvalidAccount,
            ) && *final(self) == *old(self),
            old(self).threshold_found == 0 ==> result is Ok && *final(self) == (
            FinalizationLedger { threshold_key: key, threshold_found: 1, ..*old(self) }),
    {
        if self.threshold_found != 0 {
            return Err(GiveawayError::InvalidAccount);
        }
        self.threshold_key = key;
        self.threshold_found = 1;
        Ok(())
    }

    /// The emitted-winner count kept in the first four reserved bytes.
    pub open spec fn spec_emitted_count(&self) -> u32 {
        spec_u32_from_le_bytes(self.reserved@.subrange(0, 4))
    }

    /// Enters the emission phase with a zero emitted count.
    pub fn begin_emitting(&mut self)
        ensures
            final(self).spec_emitted_count() == 0,
            final(self).reserved@.subrange(4, 64) == old(self).reserved@.subrange(4, 64),
            final(self).histogram@ == empty_histogram(),
            *final(self) == (FinalizationLedger {
                phase: PHASE_EMITTING,
                processed_count: 0,
                histogram: final(self).histogram,
                reserved: final(self).reserved,
                ..*old(self)
            }),
    {
        self.phase = PHASE_EMITTING;
        self.write_emitted_count(0);
        self.reset_pass();
    }

    fn write_emitted_count(&mut self, count: u32)
        ensures
            final(self).spec_emitted_count() == count,
            final(self).reserved@.subrange(4, 64) == old(self).reserved@.subrange(4, 64),
            *final(self) == (FinalizationLedger { reserved: final(self).reserved, ..*old(self) }),
    {
        let bytes = u32_to_le_bytes(count);
        let ghost old_reserved = self.reserved@;
        let mut i: usize = 0;
        while i < 4
            invariant
                i <= 4,
                bytes@ == spec_u32_to_le_bytes(count),
                bytes@.len() == 4,
                self.reserved@.len() == 64,
                forall|j: int| 0 <= j < i ==> self.reserved@[j] == bytes@[j],
                forall|j: int| i <= j < 64 ==> self.reserved@[j] == old_reserved[j],
                *self == (FinalizationLedger { reserved: self.reserved, ..*old(self) }),
            decreases 4 - i,
        {
            self.reserved[i] = bytes[i];
            i = i + 1;
        }
        assert(self.reserved@.subrange(0, 4) =~= spec_u32_to_le_bytes(count));
        assert(self.reserved@.subrange(4, 64) =~= old_reserved.subrange(4, 64));
        proof {
            vstd::bytes::lemma_auto_spec_u32_to_from_le_bytes();
        }
    }

    /// Number of winners emitted so far.
    pub fn emitted_count(&self) -> (count: u32)
        ensures
            count == self.spec_emitted_count(),
    {
        let bytes = vstd::slice::slice_subrange(self.reserved.as_slice(), 0, 4);
        u32_from_le_bytes(bytes)
    }

    /// Counts one more emitted winner and returns its emission index.
    pub fn record_emitted(&mut self) -> (result: Result<u32, GiveawayError>)
        ensures
            old(self).spec_emitted_count() == u32::MAX ==> result == Err::<u32, _>(
                GiveawayError::MathOverflow,
            ) && *final(self) == *old(self),
            old(self).spec_emitted_count() < u32::MAX ==> result == Ok::<u32, GiveawayError>(
                old(self).spec_emitted_count(),
            ) && final(self).spec_emitted_count() == old(self).spec_emitted_count() + 1
                && final(self).reserved@.subrange(4, 64) == old(self).reserved@.subrange(4, 64)
                && *final(self) == (FinalizationLedger {
                reserved: final(self).reserved,
                ..*old(self)
            }),
    {
        let winner_index = self.emitted_count();
        let next = match winner_index.checked_add(1) {
            Some(next) => next,
            None => {
                return Err(GiveawayError::MathOverflow);
            },
        };
        self.write_emitted_count(next);
        Ok(winner_index)
    }

    /// Marks finalization complete.
    pub fn complete(&mut self, current_time: i64)
        ensures
            *final(self) == (FinalizationLedger {
                phase: PHASE_COMPLETED,
                completed: 1,
                completed_at_unix: current_time,
                ..*old(self)
            }),
    {
        self.phase = PHASE_COMPLETED;
        self.completed = 1;
        self.completed_at_unix = current_time;
    }

    /// Starts a new pass over the participants.
    pub fn reset_pass(&mut self)
        ensures
            final(self).histogram@ == empty_histogram(),
            *final(self) == (FinalizationLedger {
                processed_count: 0,
                histogram: final(self).histogram,
                ..*old(self)
            }),
    {
        self.processed_count = 0;
        self.histogram = [0u64; 256];
        assert(self.histogram@ =~= empty_histogram());
    }
}

} // verus!
