//! Events the program reports for every state change, and the versioned
//! envelope they are logged in.
use vstd::prelude::*;

verus! {

/// Version of the event schema.
pub const EVENT_VERSION: &'static str = "1.0.0";

/// Name of the program in every event envelope.
pub const EVENT_PROGRAM: &'static str = "giveaways";

/// Event envelope for structured emission.
pub struct GiveawayEventWrapper {
    pub version: String,
    pub program: String,
    pub event: GiveawayEvent,
}

/// All events the program reports.
#[derive(Debug, Clone, PartialEq, Eq)]
pub enum GiveawayEvent {
    GiveawayCreated {
        giveaway_id: u64,
        giveaway: String,
        creator: String,
        config: String,
        vault: String,
        total_payout_lamports: u64,
        number_of_winners: u32,
        active_start_unix: i64,
        active_deadline_unix: i64,
        upload_start_unix: i64,
        upload_deadline_unix: i64,
        service_fee_bps: u16,
        timestamp: i64,
    },
    GiveawayUpdated {
        giveaway_id: u64,
        giveaway: String,
        active_deadline_unix: Option<i64>,
        upload_deadline_unix: Option<i64>,
        timestamp: i64,
    },
    ParticipationSubmitted {
        giveaway_id: u64,
        giveaway: String,
        participant: String,
        participant_account: String,
        commitment_hash: String,
        proof_text: String,
        is_update: bool,
        timestamp: i64,
    },
    AttestationSubmitted {
        giveaway_id: u64,
        giveaway: String,
        participant: String,
        participant_account: String,
        timestamp: i64,
    },
    RevealsUploaded {
        giveaway_id: u64,
        giveaway: String,
        authority: String,
        batch_size: u32,
        total_reveals_uploaded: u64,
        total_attested: u64,
        aggregate_hash: String,
        uploads_complete: bool,
        timestamp: i64,
    },
    RevealRemediationBegan {
        giveaway_id: u64,
        giveaway: String,
        included_reveals_count: u64,
        attested_count: u64,
        remediation_start_unix: i64,
        remediation_deadline_unix: i64,
        timestamp: i64,
    },
    RevealRemediationCompleted {
        giveaway_id: u64,
        giveaway: String,
        included_reveals_count: u64,
        attested_count: u64,
        timestamp: i64,
    },
    UploadPhaseBegan {
        giveaway_id: u64,
        giveaway: String,
        upload_start_unix: i64,
        upload_deadline_unix: i64,
        timestamp: i64,
    },
    WinnersComputed {
        giveaway_id: u64,
        giveaway: String,
        winners_ledger: String,
        merkle_root: String,
        seed: String,
        rule_version: String,
        total_eligible: u64,
        winners_count: u32,
        total_payout_lamports: u64,
        per_winner_lamports: u64,
        recompute_version: u32,
        winners: Vec<String>,
        timestamp: i64,
    },
    WinnerSelected {
        giveaway_id: u64,
        giveaway: String,
        participant: String,
        participant_account: String,
        candidate_key: String,
        recompute_version: u32,
        emission_index: u32,
        timestamp: i64,
    },
    FinalizationChunkProcessed {
        giveaway_id: u64,
        giveaway: String,
        finalization_ledger: String,
        recompute_version: u32,
        batch_size: u32,
        processed_count: u64,
        required_count: u64,
        eligible_count: u64,
        candidate_count: u32,
        completed: bool,
        timestamp: i64,
    },
    ParticipantDisqualified {
        giveaway_id: u64,
        giveaway: String,
        participant: String,
        participant_account: String,
        reason_code: u8,
        disqualified_by: String,
        timestamp: i64,
    },
    WinnersLocked {
        giveaway_id: u64,
        giveaway: String,
        winners_ledger: String,
        final_recompute_version: u32,
        final_winners_count: u32,
        timestamp: i64,
    },
    WinnerPaid {
        giveaway_id: u64,
        giveaway: String,
        winner: String,
        amount_lamports: u64,
        batch_index: u32,
        winner_index: u32,
        timestamp: i64,
    },
    ServiceFeePaid {
        giveaway_id: u64,
        giveaway: String,
        service_fee_lamports: u64,
        authority: String,
        timestamp: i64,
    },
    NoWinners {
        giveaway_id: u64,
        giveaway: String,
        reason: String,
        total_participants: u64,
        total_attested: u64,
        timestamp: i64,
    },
    CreatorRefunded {
        giveaway_id: u64,
        giveaway: String,
        creator: String,
        amount_lamports: u64,
        timestamp: i64,
    },
    GiveawaySettled {
        giveaway_id: u64,
        giveaway: String,
        total_winners: u32,
        total_paid_lamports: u64,
        timestamp: i64,
    },
    ParticipantClosed {
        giveaway_id: u64,
        giveaway: String,
        participant: String,
        participant_account: String,
        rent_reclaimed: u64,
        timestamp: i64,
    },
}

/// An event with its texts taken as character sequences.
pub enum GiveawayEventView {
    GiveawayCreated {
        giveaway_id: u64,
        giveaway: Seq<char>,
        creator: Seq<char>,
        config: Seq<char>,
        vault: Seq<char>,
        total_payout_lamports: u64,
        number_of_winners: u32,
        active_start_unix: i64,
        active_deadline_unix: i64,
        upload_start_unix: i64,
        upload_deadline_unix: i64,
        service_fee_bps: u16,
        timestamp: i64,
    },
    GiveawayUpdated {
        giveaway_id: u64,
        giveaway: Seq<char>,
        active_deadline_unix: Option<i64>,
        upload_deadline_unix: Option<i64>,
        timestamp: i64,
    },
    ParticipationSubmitted {
        giveaway_id: u64,
        giveaway: Seq<char>,
        participant: Seq<char>,
        participant_account: Seq<char>,
        commitment_hash: Seq<char>,
        proof_text: Seq<char>,
        is_update: bool,
        timestamp: i64,
    },
    AttestationSubmitted {
        giveaway_id: u64,
        giveaway: Seq<char>,
        participant: Seq<char>,
        participant_account: Seq<char>,
        timestamp: i64,
    },
    RevealsUploaded {
        giveaway_id: u64,
        giveaway: Seq<char>,
        authority: Seq<char>,
        batch_size: u32,
        total_reveals_uploaded: u64,
        total_attested: u64,
        aggregate_hash: Seq<char>,
        uploads_complete: bool,
        timestamp: i64,
    },
    RevealRemediationBegan {
        giveaway_id: u64,
        giveaway: Seq<char>,
        included_reveals_count: u64,
        attested_count: u64,
        remediation_start_unix: i64,
        remediation_deadline_unix: i64,
        timestamp: i64,
    },
    RevealRemediationCompleted {
        giveaway_id: u64,
        giveaway: Seq<char>,
        included_reveals_count: u64,
        attested_count: u64,
        timestamp: i64,
    },
    UploadPhaseBegan {
        giveaway_id: u64,
        giveaway: Seq<char>,
        upload_start_unix: i64,
        upload_deadline_unix: i64,
        timestamp: i64,
    },
    WinnersComputed {
        giveaway_id: u64,
        giveaway: Seq<char>,
        winners_ledger: Seq<char>,
        merkle_root: Seq<char>,
        seed: Seq<char>,
        rule_version: Seq<char>,
        total_eligible: u64,
        winners_count: u32,
        total_payout_lamports: u64,
        per_winner_lamports: u64,
        recompute_version: u32,
        winners: Seq<Seq<char>>,
        timestamp: i64,
    },
    WinnerSelected {
        giveaway_id: u64,
        giveaway: Seq<char>,
        participant: Seq<char>,
        participant_account: Seq<char>,
        candidate_key: Seq<char>,
        recompute_version: u32,
        emission_index: u32,
        timestamp: i64,
    },
    FinalizationChunkProcessed {
        giveaway_id: u64,
        giveaway: Seq<char>,
        finalization_ledger: Seq<char>,
        recompute_version: u32,
        batch_size: u32,
        processed_count: u64,
        required_count: u64,
        eligible_count: u64,
        candidate_count: u32,
        completed: bool,
        timestamp: i64,
    },
    ParticipantDisqualified {
        giveaway_id: u64,
        giveaway: Seq<char>,
        participant: Seq<char>,
        participant_account: Seq<char>,
        reason_code: u8,
        disqualified_by: Seq<char>,
        timestamp: i64,
    },
    WinnersLocked {
        giveaway_id: u64,
        giveaway: Seq<char>,
        winners_ledger: Seq<char>,
        final_recompute_version: u32,
        final_winners_count: u32,
        timestamp: i64,
    },
    WinnerPaid {
        giveaway_id: u64,
        giveaway: Seq<char>,
        winner: Seq<char>,
        amount_lamports: u64,
        batch_index: u32,
        winner_index: u32,
        timestamp: i64,
    },
    ServiceFeePaid {
        giveaway_id: u64,
        giveaway: Seq<char>,
        service_fee_lamports: u64,
        authority: Seq<char>,
        timestamp: i64,
    },
    NoWinners {
        giveaway_id: u64,
        giveaway: Seq<char>,
        reason: Seq<char>,
        total_participants: u64,
        total_attested: u64,
        timestamp: i64,
    },
    CreatorRefunded {
        giveaway_id: u64,
        giveaway: Seq<char>,
        creator: Seq<char>,
        amount_lamports: u64,
        timestamp: i64,
    },
    GiveawaySettled {
        giveaway_id: u64,
        giveaway: Seq<char>,
        total_winners: u32,
        total_paid_lamports: u64,
        timestamp: i64,
    },
    ParticipantClosed {
        giveaway_id: u64,
        giveaway: Seq<char>,
        participant: Seq<char>,
        participant_account: Seq<char>,
        rent_reclaimed: u64,
        timestamp: i64,
    },
}

/// The character sequences of a list of texts.
pub open spec fn strings_view(texts: Seq<String>) -> Seq<Seq<char>> {
    texts.map_values(|t: String| t@)
}

impl View for GiveawayEvent {
    type V = GiveawayEventView;

    open spec fn view(&self) -> GiveawayEventView {
        match self {
            GiveawayEvent::GiveawayCreated { giveaway_id, giveaway, creator, config, vault, total_payout_lamports, number_of_winners, active_start_unix, active_deadline_unix, upload_start_unix, upload_deadline_unix, service_fee_bps, timestamp } => GiveawayEventView::GiveawayCreated {
                giveaway_id: *giveaway_id,
                giveaway: giveaway@,
                creator: creator@,
                config: config@,
                vault: vault@,
                total_payout_lamports: *total_payout_lamports,
                number_of_winners: *number_of_winners,
                active_start_unix: *active_start_unix,
                active_deadline_unix: *active_deadline_unix,
                upload_start_unix: *upload_start_unix,
                upload_deadline_unix: *upload_deadline_unix,
                service_fee_bps: *service_fee_bps,
                timestamp: *timestamp,
            },
            GiveawayEvent::GiveawayUpdated { giveaway_id, giveaway, active_deadline_unix, upload_deadline_unix, timestamp } => GiveawayEventView::GiveawayUpdated {
                giveaway_id: *giveaway_id,
                giveaway: giveaway@,
                active_deadline_unix: *active_deadline_unix,
                upload_deadline_unix: *upload_deadline_unix,
                timestamp: *timestamp,
            },
            GiveawayEvent::ParticipationSubmitted { giveaway_id, giveaway, participant, participant_account, commitment_hash, proof_text, is_update, timestamp } => GiveawayEventView::ParticipationSubmitted {
                giveaway_id: *giveaway_id,
                giveaway: giveaway@,
                participant: participant@,
                participant_account: participant_account@,
                commitment_hash: commitment_hash@,
                proof_text: proof_text@,
                is_update: *is_update,
                timestamp: *timestamp,
            },
            GiveawayEvent::AttestationSubmitted { giveaway_id, giveaway, participant, participant_account, timestamp } => GiveawayEventView::AttestationSubmitted {
                giveaway_id: *giveaway_id,
                giveaway: giveaway@,
                participant: participant@,
                participant_account: participant_account@,
                timestamp: *timestamp,
            },
            GiveawayEvent::RevealsUploaded { giveaway_id, giveaway, authority, batch_size, total_reveals_uploaded, total_attested, aggregate_hash, uploads_complete, timestamp } => GiveawayEventView::RevealsUploaded {
                giveaway_id: *giveaway_id,
                giveaway: giveaway@,
                authority: authority@,
                batch_size: *batch_size,
                total_reveals_uploaded: *total_reveals_uploaded,
                total_attested: *total_attested,
                aggregate_hash: aggregate_hash@,
                uploads_complete: *uploads_complete,
                timestamp: *timestamp,
            },
            GiveawayEvent::RevealRemediationBegan { giveaway_id, giveaway, included_reveals_count, attested_count, remediation_start_unix, remediation_deadline_unix, timestamp } => GiveawayEventView::RevealRemediationBegan {
                giveaway_id: *giveaway_id,
                giveaway: giveaway@,
                included_reveals_count: *included_reveals_count,
                attested_count: *attested_count,
                remediation_start_unix: *remediation_start_unix,
                remediation_deadline_unix: *remediation_deadline_unix,
                timestamp: *timestamp,
            },
            GiveawayEvent::RevealRemediationCompleted { giveaway_id, giveaway, included_reveals_count, attested_count, timestamp } => GiveawayEventView::RevealRemediationCompleted {
                giveaway_id: *giveaway_id,
                giveaway: giveaway@,
                included_reveals_count: *included_reveals_count,
                attested_count: *attested_count,
                timestamp: *timestamp,
            },
            GiveawayEvent::UploadPhaseBegan { giveaway_id, giveaway, upload_start_unix, upload_deadline_unix, timestamp } => GiveawayEventView::UploadPhaseBegan {
                giveaway_id: *giveaway_id,
                giveaway: giveaway@,
                upload_start_unix: *upload_start_unix,
                upload_deadline_unix: *upload_deadline_unix,
                timestamp: *timestamp,
            },
            GiveawayEvent::WinnersComputed { giveaway_id, giveaway, winners_ledger, merkle_root, seed, rule_version, total_eligible, winners_count, total_payout_lamports, per_winner_lamports, recompute_version, winners, timestamp } => GiveawayEventView::WinnersComputed {
                giveaway_id: *giveaway_id,
                giveaway: giveaway@,
                winners_ledger: winners_ledger@,
                merkle_root: merkle_root@,
                seed: seed@,
                rule_version: rule_version@,
                total_eligible: *total_eligible,
                winners_count: *winners_count,
                total_payout_lamports: *total_payout_lamports,
                per_winner_lamports: *per_winner_lamports,
                recompute_version: *recompute_version,
                winners: strings_view(winners@),
                timestamp: *timestamp,
            },
            GiveawayEvent::WinnerSelected { giveaway_id, giveaway, participant, participant_account, candidate_key, recompute_version, emission_index, timestamp } => GiveawayEventView::WinnerSelected {
                giveaway_id: *giveaway_id,
                giveaway: giveaway@,
                participant: participant@,
                participant_account: participant_account@,
                candidate_key: candidate_key@,
                recompute_version: *recompute_version,
                emission_index: *emission_index,
                timestamp: *timestamp,
            },
            GiveawayEvent::FinalizationChunkProcessed { giveaway_id, giveaway, finalization_ledger, recompute_version, batch_size, processed_count, required_count, eligible_count, candidate_count, completed, timestamp } => GiveawayEventView::FinalizationChunkProcessed {
                giveaway_id: *giveaway_id,
                giveaway: giveaway@,
                finalization_ledger: finalization_ledger@,
                recompute_version: *recompute_version,
                batch_size: *batch_size,
                processed_count: *processed_count,
                required_count: *required_count,
                eligible_count: *eligible_count,
                candidate_count: *candidate_count,
                completed: *completed,
                timestamp: *timestamp,
            },
            GiveawayEvent::ParticipantDisqualified { giveaway_id, giveaway, participant, participant_account, reason_code, disqualified_by, timestamp } => GiveawayEventView::ParticipantDisqualified {
                giveaway_id: *giveaway_id,
                giveaway: giveaway@,
                participant: participant@,
                participant_account: participant_account@,
                reason_code: *reason_code,
                disqualified_by: disqualified_by@,
                timestamp: *timestamp,
            },
            GiveawayEvent::WinnersLocked { giveaway_id, giveaway, winners_ledger, final_recompute_version, final_winners_count, timestamp } => GiveawayEventView::WinnersLocked {
                giveaway_id: *giveaway_id,
                giveaway: giveaway@,
                winners_ledger: winners_ledger@,
                final_recompute_version: *final_recompute_version,
                final_winners_count: *final_winners_count,
                timestamp: *timestamp,
            },
            GiveawayEvent::WinnerPaid { giveaway_id, giveaway, winner, amount_lamports, batch_index, winner_index, timestamp } => GiveawayEventView::WinnerPaid {
                giveaway_id: *giveaway_id,
                giveaway: giveaway@,
                winner: winner@,
                amount_lamports: *amount_lamports,
                batch_index: *batch_index,
                winner_index: *winner_index,
                timestamp: *timestamp,
            },
            GiveawayEvent::ServiceFeePaid { giveaway_id, giveaway, service_fee_lamports, authority, timestamp } => GiveawayEventView::ServiceFeePaid {
                giveaway_id: *giveaway_id,
                giveaway: giveaway@,
                service_fee_lamports: *service_fee_lamports,
                authority: authority@,
                timestamp: *timestamp,
            },
            GiveawayEvent::NoWinners { giveaway_id, giveaway, reason, total_participants, total_attested, timestamp } => GiveawayEventView::NoWinners {
                giveaway_id: *giveaway_id,
                giveaway: giveaway@,
                reason: reason@,
                total_participants: *total_participants,
                total_attested: *total_attested,
                timestamp: *timestamp,
            },
            GiveawayEvent::CreatorRefunded { giveaway_id, giveaway, creator, amount_lamports, timestamp } => GiveawayEventView::CreatorRefunded {
                giveaway_id: *giveaway_id,
                giveaway: giveaway@,
                creator: creator@,
                amount_lamports: *amount_lamports,
                timestamp: *timestamp,
            },
            GiveawayEvent::GiveawaySettled { giveaway_id, giveaway, total_winners, total_paid_lamports, timestamp } => GiveawayEventView::GiveawaySettled {
                giveaway_id: *giveaway_id,
                giveaway: giveaway@,
                total_winners: *total_winners,
                total_paid_lamports: *total_paid_lamports,
                timestamp: *timestamp,
            },
            GiveawayEvent::ParticipantClosed { giveaway_id, giveaway, participant, participant_account, rent_reclaimed, timestamp } => GiveawayEventView::ParticipantClosed {
                giveaway_id: *giveaway_id,
                giveaway: giveaway@,
                participant: participant@,
                participant_account: participant_account@,
                rent_reclaimed: *rent_reclaimed,
                timestamp: *timestamp,
            },
        }
    }
}

/// The views of a list of events.
pub open spec fn events_view(events: Seq<GiveawayEvent>) -> Seq<GiveawayEventView> {
    events.map_values(|e: GiveawayEvent| e@)
}

impl GiveawayEvent {
    /// Puts the event in its envelope, with the schema version and the
    /// program name.
    pub fn wrap(self) -> (wrapper: GiveawayEventWrapper)
        ensures
            wrapper.version@ == EVENT_VERSION@,
            wrapper.program@ == EVENT_PROGRAM@,
            wrapper.event == self,
    {
        GiveawayEventWrapper {
            version: EVENT_VERSION.to_owned(),
            program: EVENT_PROGRAM.to_owned(),
            event: self,
        }
    }
}

} // verus!
