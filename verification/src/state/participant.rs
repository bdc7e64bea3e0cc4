//! A participant entry: commitment, proof text, attestation and reveal
//! flags, disqualification, and the versioned finalization, selection and
//! payout markers kept in reserved bytes.
use vstd::prelude::*;
use vstd::string::StringSliceAdditionalSpecFns;
use crate::bytes::{
    is_all_zero, le16, le32, le64, read_le_u16, read_le_u32, read_le_u64, to_array32, write_le_u16,
    write_le_u32, write_le_u64, zero_bytes, Pubkey,
};
use crate::constants::{
    DUPLICATE_ENTRY, INCOMPLETE_TASKS, INVALID_PROOF, MAX_PROOF_TEXT_LEN, OTHER, TERMS_VIOLATION,
};

verus! {

/// Individual participant state.
pub struct Participant {
    pub giveaway: Pubkey,
    pub wallet: Pubkey,
    pub commitment_hash: [u8; 32],
    pub proof_text: String,
    pub attested_uploaded: bool,
    pub attested_at_unix: i64,
    pub reveal_included: bool,
    pub disqualified: bool,
    pub disqualification_reason: u8,
    pub disqualified_at_unix: i64,
    pub created_at_unix: i64,
    pub last_updated_unix: i64,
    pub reserved: [u8; 64],
}

/// `reserved` with `bytes` written at `offset`.
pub open spec fn spec_overwrite(reserved: Seq<u8>, offset: int, bytes: Seq<u8>) -> Seq<u8> {
    reserved.subrange(0, offset) + bytes + reserved.subrange(offset + bytes.len(), reserved.len() as int)
}

/// `a` and `b` agree outside positions `lo..hi`.
pub open spec fn same_outside(a: Seq<u8>, b: Seq<u8>, lo: int, hi: int) -> bool {
    &&& a.len() == b.len()
    &&& forall|j: int| 0 <= j < a.len() && !(lo <= j < hi) ==> a[j] == b[j]
}

/// A disqualification reason code the protocol knows.
pub open spec fn spec_valid_reason_code(reason_code: u8) -> bool {
    reason_code == INCOMPLETE_TASKS || reason_code == INVALID_PROOF || reason_code
        == TERMS_VIOLATION || reason_code == DUPLICATE_ENTRY || reason_code == OTHER
}

fn write_reserved(reserved: &mut [u8; 64], offset: usize, bytes: &[u8])
    requires
        offset + bytes@.len() <= 64,
    ensures
        final(reserved)@ == spec_overwrite(old(reserved)@, offset as int, bytes@),
{
    let ghost start = reserved@;
    let mut i: usize = 0;
    while i < bytes.len()
        invariant
            offset + bytes@.len() <= 64,
            i <= bytes@.len(),
            reserved@.len() == 64,
            forall|j: int| 0 <= j < offset ==> reserved@[j] == start[j],
            forall|j: int| 0 <= j < i ==> reserved@[offset + j] == bytes@[j],
            forall|j: int| offset + i <= j < 64 ==> reserved@[j] == start[j],
        decreases bytes@.len() - i,
    {
        reserved[offset + i] = bytes[i];
        i = i + 1;
    }
    assert(reserved@ =~= spec_overwrite(start, offset as int, bytes@));
}

impl Participant {
    /// Maximum serialized size of the account, discriminator included.
    pub const MAX_SIZE: usize = 8 + 32 + 32 + 32 + 4 + MAX_PROOF_TEXT_LEN + 1 + 8 + 1 + 1 + 1 + 8 + 8
        + 8 + 64;

    /// Recompute version of the last aggregation pass that counted this entry.
    pub open spec fn spec_finalization_version(&self) -> u32 {
        le32(self.reserved@.subrange(0, 4)) as u32
    }

    /// Recompute version of the last selection pass marker.
    pub open spec fn spec_selection_version(&self) -> u32 {
        le32(self.reserved@.subrange(4, 8)) as u32
    }

    /// Pass number of the last selection pass marker.
    pub open spec fn spec_selection_pass(&self) -> u16 {
        le16(self.reserved@.subrange(8, 10)) as u16
    }

    /// Recompute version under which this entry was last paid.
    pub open spec fn spec_payout_version(&self) -> u32 {
        le32(self.reserved@.subrange(10, 14)) as u32
    }

    /// The verified reveal digest.
    pub open spec fn spec_reveal_digest(&self) -> Seq<u8> {
        self.reserved@.subrange(16, 48)
    }

    /// The immutable participant index.
    pub open spec fn spec_participant_index(&self) -> u64 {
        le64(self.reserved@.subrange(48, 56)) as u64
    }

    /// Creates the entry with its canonical index.
    pub fn initialize(
        &mut self,
        giveaway: Pubkey,
        wallet: Pubkey,
        commitment_hash: [u8; 32],
        proof_text: String,
        current_time: i64,
        participant_index: u64,
    )
        ensures
            final(self).spec_participant_index() == participant_index,
            final(self).spec_finalization_version() == 0,
            final(self).spec_selection_version() == 0,
            final(self).spec_selection_pass() == 0,
            final(self).spec_payout_version() == 0,
            final(self).spec_reveal_digest() == zero_bytes(32),
            final(self).reserved@.subrange(0, 48) == zero_bytes(48),
            final(self).reserved@.subrange(56, 64) == zero_bytes(8),
            *final(self) == (Participant {
                giveaway,
                wallet,
                commitment_hash,
                proof_text,
                attested_uploaded: false,
                attested_at_unix: 0,
                reveal_included: false,
                disqualified: false,
                disqualification_reason: 0,
                disqualified_at_unix: 0,
                created_at_unix: current_time,
                last_updated_unix: current_time,
                reserved: final(self).reserved,
            }),
    {
        self.giveaway = giveaway;
        self.wallet = wallet;
        self.commitment_hash = commitment_hash;
        self.proof_text = proof_text;
        self.attested_uploaded = false;
        self.attested_at_unix = 0;
        self.reveal_included = false;
        self.disqualified = false;
        self.disqualification_reason = 0;
        self.disqualified_at_unix = 0;
        self.created_at_unix = current_time;
        self.last_updated_unix = current_time;
        self.reserved = [0u8; 64];
        assert(self.reserved@ =~= zero_bytes(64));
        let index_bytes = write_le_u64(participant_index);
        write_reserved(&mut self.reserved, 48, index_bytes.as_slice());
        proof {
            let r = self.reserved@;
            assert(r.subrange(48, 56) =~= index_bytes@);
            assert(r.subrange(0, 4) =~= zero_bytes(4));
            assert(r.subrange(4, 8) =~= zero_bytes(4));
            assert(r.subrange(8, 10) =~= zero_bytes(2));
            assert(r.subrange(10, 14) =~= zero_bytes(4));
            assert(r.subrange(16, 48) =~= zero_bytes(32));
            assert(zero_bytes(4).subrange(2, 4) =~= zero_bytes(2));
            assert(r.subrange(0, 48) =~= zero_bytes(48));
            assert(r.subrange(56, 64) =~= zero_bytes(8));
        }
    }

    /// Replaces the commitment and proof text of an existing entry.
    pub fn update(&mut self, commitment_hash: [u8; 32], proof_text: String, current_time: i64)
        ensures
            *final(self) == (Participant {
                commitment_hash,
                proof_text,
                last_updated_unix: current_time,
                ..*old(self)
            }),
    {
        self.commitment_hash = commitment_hash;
        self.proof_text = proof_text;
        self.last_updated_unix = current_time;
    }

    /// Marks the entry attested.
    pub fn mark_attested(&mut self, current_time: i64)
        ensures
            *final(self) == (Participant {
                attested_uploaded: true,
                attested_at_unix: current_time,
                last_updated_unix: current_time,
                ..*old(self)
            }),
    {
        self.attested_uploaded = true;
        self.attested_at_unix = current_time;
        self.last_updated_unix = current_time;
    }

    /// Marks the reveal included.
    pub fn mark_reveal_included(&mut self, current_time: i64)
        ensures
            *final(self) == (Participant {
                reveal_included: true,
                last_updated_unix: current_time,
                ..*old(self)
            }),
    {
        self.reveal_included = true;
        self.last_updated_unix = current_time;
    }

    /// Stores a verified reveal digest and marks the reveal included; the
    /// other reserved fields keep their values.
    pub fn include_verified_reveal(&mut self, digest: [u8; 32], current_time: i64)
        ensures
            final(self).spec_reveal_digest() == digest@,
            final(self).spec_participant_index() == old(self).spec_participant_index(),
            final(self).spec_finalization_version() == old(self).spec_finalization_version(),
            final(self).spec_selection_version() == old(self).spec_selection_version(),
            final(self).spec_selection_pass() == old(self).spec_selection_pass(),
            final(self).spec_payout_version() == old(self).spec_payout_version(),
            final(self).reserved@ == spec_overwrite(old(self).reserved@, 16, digest@),
            *final(self) == (Participant {
                reveal_included: true,
                last_updated_unix: current_time,
                reserved: final(self).reserved,
                ..*old(self)
            }),
    {
        let ghost r0 = self.reserved@;
        write_reserved(&mut self.reserved, 16, digest.as_slice());
        self.mark_reveal_included(current_time);
        proof {
            let r = self.reserved@;
            assert(r.subrange(16, 48) =~= digest@);
            assert(r.subrange(48, 56) =~= r0.subrange(48, 56));
            assert(r.subrange(0, 4) =~= r0.subrange(0, 4));
            assert(r.subrange(4, 8) =~= r0.subrange(4, 8));
            assert(r.subrange(8, 10) =~= r0.subrange(8, 10));
            assert(r.subrange(10, 14) =~= r0.subrange(10, 14));
        }
    }

    /// The verified reveal digest.
    pub fn reveal_digest(&self) -> (digest: [u8; 32])
        ensures
            digest@ == self.spec_reveal_digest(),
    {
        to_array32(vstd::slice::slice_subrange(self.reserved.as_slice(), 16, 48))
    }

    /// The immutable participant index.
    pub fn participant_index(&self) -> (index: u64)
        ensures
            index == self.spec_participant_index(),
    {
        read_le_u64(vstd::slice::slice_subrange(self.reserved.as_slice(), 48, 56))
    }

    /// Disqualifies the entry with a reason.
    pub fn disqualify(&mut self, reason_code: u8, current_time: i64)
        ensures
            *final(self) == (Participant {
                disqualified: true,
                disqualification_reason: reason_code,
                disqualified_at_unix: current_time,
                last_updated_unix: current_time,
                ..*old(self)
            }),
    {
        self.disqualified = true;
        self.disqualification_reason = reason_code;
        self.disqualified_at_unix = current_time;
        self.last_updated_unix = current_time;
    }

    /// Eligible for winner selection: reveal included and not disqualified.
    pub fn is_eligible(&self) -> (eligible: bool)
        ensures
            eligible == (!self.disqualified && self.reveal_included),
    {
        !self.disqualified && self.reveal_included
    }

    /// The recompute version of the last aggregation pass over this entry.
    pub fn finalization_version(&self) -> (version: u32)
        ensures
            version == self.spec_finalization_version(),
    {
        read_le_u32(vstd::slice::slice_subrange(self.reserved.as_slice(), 0, 4))
    }

    /// Records that the aggregation pass of `recompute_version` counted this
    /// entry; the other reserved fields keep their values.
    pub fn mark_finalized_for_version(&mut self, recompute_version: u32, current_time: i64)
        ensures
            final(self).spec_finalization_version() == recompute_version,
            final(self).spec_participant_index() == old(self).spec_participant_index(),
            final(self).spec_reveal_digest() == old(self).spec_reveal_digest(),
            final(self).spec_selection_version() == old(self).spec_selection_version(),
            final(self).spec_selection_pass() == old(self).spec_selection_pass(),
            final(self).spec_payout_version() == old(self).spec_payout_version(),
            same_outside(final(self).reserved@, old(self).reserved@, 0, 4),
            *final(self) == (Participant {
                last_updated_unix: current_time,
                reserved: final(self).reserved,
                ..*old(self)
            }),
    {
        let ghost r0 = self.reserved@;
        let bytes = write_le_u32(recompute_version);
        write_reserved(&mut self.reserved, 0, bytes.as_slice());
        self.last_updated_unix = current_time;
        proof {
            let r = self.reserved@;
            assert(r.subrange(0, 4) =~= bytes@);
            assert(r.subrange(48, 56) =~= r0.subrange(48, 56));
            assert(r.subrange(16, 48) =~= r0.subrange(16, 48));
            assert(r.subrange(4, 8) =~= r0.subrange(4, 8));
            assert(r.subrange(8, 10) =~= r0.subrange(8, 10));
            assert(r.subrange(10, 14) =~= r0.subrange(10, 14));
        }
    }

    /// Whether the selection marker records `version` and `pass`.
    pub fn processed_in_selection_pass(&self, version: u32, pass: u16) -> (processed: bool)
        ensures
            processed == (self.spec_selection_version() == version && self.spec_selection_pass()
                == pass),
    {
        let stored_version = read_le_u32(
            vstd::slice::slice_subrange(self.reserved.as_slice(), 4, 8),
        );
        let stored_pass = read_le_u16(
            vstd::slice::slice_subrange(self.reserved.as_slice(), 8, 10),
        );
        stored_version == version && stored_pass == pass
    }

    /// Records that selection pass `pass` of `version` processed this entry;
    /// the other reserved fields keep their values.
    pub fn mark_selection_pass(&mut self, version: u32, pass: u16, current_time: i64)
        ensures
            final(self).spec_selection_version() == version,
            final(self).spec_selection_pass() == pass,
            final(self).spec_participant_index() == old(self).spec_participant_index(),
            final(self).spec_reveal_digest() == old(self).spec_reveal_digest(),
            final(self).spec_finalization_version() == old(self).spec_finalization_version(),
            final(self).spec_payout_version() == old(self).spec_payout_version(),
            same_outside(final(self).reserved@, old(self).reserved@, 4, 10),
            *final(self) == (Participant {
                last_updated_unix: current_time,
                reserved: final(self).reserved,
                ..*old(self)
            }),
    {
        let ghost r0 = self.reserved@;
        let version_bytes = write_le_u32(version);
        write_reserved(&mut self.reserved, 4, version_bytes.as_slice());
        let pass_bytes = write_le_u16(pass);
        write_reserved(&mut self.reserved, 8, pass_bytes.as_slice());
        self.last_updated_unix = current_time;
        proof {
            let r = self.reserved@;
            assert(r.subrange(4, 8) =~= version_bytes@);
            assert(r.subrange(8, 10) =~= pass_bytes@);
            assert(r.subrange(48, 56) =~= r0.subrange(48, 56));
            assert(r.subrange(16, 48) =~= r0.subrange(16, 48));
            assert(r.subrange(0, 4) =~= r0.subrange(0, 4));
            assert(r.subrange(10, 14) =~= r0.subrange(10, 14));
        }
    }

    /// The recompute version under which this entry was last paid.
    pub fn payout_version(&self) -> (version: u32)
        ensures
            version == self.spec_payout_version(),
    {
        read_le_u32(vstd::slice::slice_subrange(self.reserved.as_slice(), 10, 14))
    }

    /// Records payment under `version`; the other reserved fields keep their
    /// values.
    pub fn mark_paid_for_version(&mut self, version: u32, current_time: i64)
        ensures
            final(self).spec_payout_version() == version,
            final(self).spec_participant_index() == old(self).spec_participant_index(),
            final(self).spec_reveal_digest() == old(self).spec_reveal_digest(),
            final(self).spec_finalization_version() == old(self).spec_finalization_version(),
            final(self).spec_selection_version() == old(self).spec_selection_version(),
            final(self).spec_selection_pass() == old(self).spec_selection_pass(),
            same_outside(final(self).reserved@, old(self).reserved@, 10, 14),
            *final(self) == (Participant {
                last_updated_unix: current_time,
                reserved: final(self).reserved,
                ..*old(self)
            }),
    {
        let ghost r0 = self.reserved@;
        let bytes = write_le_u32(version);
        write_reserved(&mut self.reserved, 10, bytes.as_slice());
        self.last_updated_unix = current_time;
        proof {
            let r = self.reserved@;
            assert(r.subrange(10, 14) =~= bytes@);
            assert(r.subrange(48, 56) =~= r0.subrange(48, 56));
            assert(r.subrange(16, 48) =~= r0.subrange(16, 48));
            assert(r.subrange(0, 4) =~= r0.subrange(0, 4));
            assert(r.subrange(4, 8) =~= r0.subrange(4, 8));
            assert(r.subrange(8, 10) =~= r0.subrange(8, 10));
        }
    }

    /// A copy of the entry, as a fresh read of its account would give.
    pub fn duplicate(&self) -> (copy: Participant)
        ensures
            copy == *self,
    {
        Participant {
            giveaway: self.giveaway,
            wallet: self.wallet,
            commitment_hash: self.commitment_hash,
            proof_text: self.proof_text.clone(),
            attested_uploaded: self.attested_uploaded,
            attested_at_unix: self.attested_at_unix,
            reveal_included: self.reveal_included,
            disqualified: self.disqualified,
            disqualification_reason: self.disqualification_reason,
            disqualified_at_unix: self.disqualified_at_unix,
            created_at_unix: self.created_at_unix,
            last_updated_unix: self.last_updated_unix,
            reserved: self.reserved,
        }
    }

    /// Whether the proof text fits `MAX_PROOF_TEXT_LEN` bytes.
    pub fn validate_proof_text(proof_text: &str) -> (valid: bool)
        ensures
            valid == (proof_text.spec_bytes().len() <= MAX_PROOF_TEXT_LEN),
    {
        proof_text.as_bytes().len() <= MAX_PROOF_TEXT_LEN
    }

    /// Whether the commitment hash is non-zero.
    pub fn validate_commitment_hash(commitment_hash: &[u8; 32]) -> (valid: bool)
        ensures
            valid == (commitment_hash@ != zero_bytes(32)),
    {
        !is_all_zero(commitment_hash.as_slice())
    }

    /// Whether the reason code is one the protocol knows.
    pub fn validate_reason_code(reason_code: u8) -> (valid: bool)
        ensures
            valid == spec_valid_reason_code(reason_code),
    {
        reason_code == INCOMPLETE_TASKS || reason_code == INVALID_PROOF || reason_code
            == TERMS_VIOLATION || reason_code == DUPLICATE_ENTRY || reason_code == OTHER
    }
}

/// The known disqualification reasons are exactly incomplete tasks (1),
/// invalid proof (2), terms violation (3), duplicate entry (4) and other
/// (255).
pub proof fn lemma_known_reason_codes(reason_code: u8)
    ensures
        spec_valid_reason_code(reason_code) <==> (reason_code == 1 || reason_code == 2
            || reason_code == 3 || reason_code == 4 || reason_code == 255),
{
}

} // verus!
