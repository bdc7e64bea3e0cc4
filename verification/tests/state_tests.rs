use giveaways::constants::{
    MAX_ACTIVE_DURATION_SECS, MAX_SERVICE_FEE_BPS, MIN_ACTIVE_DURATION_SECS,
    MIN_UPLOAD_DURATION_SECS,
};
use giveaways::state::finalization_ledger::{
    FinalizationLedger, PHASE_EMITTING, PHASE_RADIX, PHASE_RESOLVING,
};
use giveaways::state::giveaway::{Giveaway, GiveawayStatus, GIVEAWAY_ACCOUNT_VERSION};
use giveaways::state::participant::Participant;
use giveaways::state::winners_ledger::WinnersLedger;
use giveaways::utils::crypto::compute_candidate_key;
use solana_program::pubkey::Pubkey;

fn unique_key() -> [u8; 32] {
    Pubkey::new_unique().to_bytes()
}

fn empty_ledger() -> FinalizationLedger {
    FinalizationLedger {
        giveaway: [0; 32],
        protocol_version: 0,
        recompute_version: 0,
        phase: 0,
        required_count: 0,
        processed_count: 0,
        eligible_count: 0,
        target_winners: 0,
        seed: [0; 32],
        participants_commitment: [0; 32],
        prefix: [0; 64],
        prefix_len: 0,
        remaining_rank: 0,
        histogram: [0; 256],
        threshold_key: [0; 64],
        threshold_found: 0,
        completed: 0,
        started_at_unix: 0,
        completed_at_unix: 0,
        reserved: [0; 64],
    }
}

fn below_eight_kib(size: usize) -> bool {
    size < 8 * 1024
}

#[test]
fn account_is_fixed_and_below_eight_kib() {
    assert_eq!(
        FinalizationLedger::calculate_size(1),
        FinalizationLedger::calculate_size(1000)
    );
    assert!(below_eight_kib(FinalizationLedger::SIZE));
}

#[test]
fn radix_selects_bucket_containing_kth_key() {
    let mut root = empty_ledger();
    root.initialize(unique_key(), 1, 3, 1);
    root.begin_radix([1; 32], 2);
    for first in [1u8, 7, 9] {
        let mut key = [0u8; 64];
        key[0] = first;
        root.record_radix_key(&key).unwrap();
    }
    root.finish_radix_pass().unwrap();
    assert_eq!(root.prefix[0], 7);
    assert_eq!(root.phase, PHASE_RESOLVING);
}

#[test]
fn archival_emission_count_is_bounded_and_persisted() {
    let mut root = empty_ledger();
    root.initialize(unique_key(), 7, 12, 1);
    root.begin_emitting();

    assert_eq!(root.phase, PHASE_EMITTING);
    assert_eq!(root.record_emitted().unwrap(), 0);
    assert_eq!(root.record_emitted().unwrap(), 1);
    assert_eq!(root.emitted_count(), 2);
}

#[test]
fn radix_threshold_selects_exact_top_k_from_fifteen_hundred_candidates() {
    let seed = [7u8; 32];
    let target = 317u32;
    let keys = (0..1_500u32)
        .map(|value| {
            let mut bytes = [0u8; 32];
            bytes[..4].copy_from_slice(&value.to_le_bytes());
            compute_candidate_key(&seed, &bytes)
        })
        .collect::<Vec<_>>();
    let mut root = empty_ledger();
    root.initialize(unique_key(), 1, keys.len() as u64, 1);
    root.eligible_count = keys.len() as u64;
    root.begin_radix(seed, target);
    while root.phase == PHASE_RADIX {
        for key in &keys {
            root.record_radix_key(key).unwrap();
        }
        root.finish_radix_pass().unwrap();
    }
    for key in &keys {
        if root.matches_prefix(key) {
            root.resolve_threshold(*key).unwrap();
        }
    }

    assert_eq!(
        keys.iter().filter(|key| **key <= root.threshold_key).count(),
        target as usize
    );
    let mut sorted = keys.clone();
    sorted.sort();
    assert_eq!(root.threshold_key, sorted[target as usize - 1]);
}

fn test_giveaway() -> Giveaway {
    Giveaway {
        id: 1,
        config: unique_key(),
        creator: unique_key(),
        vault: unique_key(),
        status: GiveawayStatus::Active,
        total_payout_lamports: 0,
        number_of_winners: 1,
        service_fee_bps: 0,
        created_at_unix: 0,
        active_start_unix: 0,
        active_deadline_unix: 0,
        upload_start_unix: 0,
        upload_deadline_unix: 0,
        settlement_start_unix: 0,
        participants_count: 0,
        attested_count: 0,
        provider_uploaded_count: 0,
        poc_aggregate_hash: [0; 32],
        uploads_complete: false,
        disqualified_count: 0,
        winners_computed: false,
        winners_locked: false,
        recompute_version: 0,
        settled: false,
        remediation_start_unix: 0,
        remediation_deadline_unix: 0,
        account_version: GIVEAWAY_ACCOUNT_VERSION,
        reserved: [0; 110],
    }
}

#[test]
fn service_fee_uses_wide_arithmetic() {
    let mut giveaway = test_giveaway();
    giveaway.total_payout_lamports = u64::MAX;
    giveaway.service_fee_bps = MAX_SERVICE_FEE_BPS;

    assert_eq!(
        giveaway.calculate_service_fee(),
        ((u128::from(u64::MAX) * u128::from(MAX_SERVICE_FEE_BPS)) / 10_000u128) as u64
    );
}

#[test]
fn timing_requires_active_duration_bounds() {
    let start = 1_000;

    assert!(Giveaway::validate_timing(
        start,
        start + i64::from(MIN_ACTIVE_DURATION_SECS),
        MIN_UPLOAD_DURATION_SECS
    ));
    assert!(!Giveaway::validate_timing(
        start,
        start + i64::from(MIN_ACTIVE_DURATION_SECS) - 1,
        MIN_UPLOAD_DURATION_SECS
    ));
    assert!(!Giveaway::validate_timing(
        start,
        start + i64::from(MAX_ACTIVE_DURATION_SECS) + 1,
        MIN_UPLOAD_DURATION_SECS
    ));
}

#[test]
fn initialized_giveaway_has_layout_version() {
    let mut giveaway = test_giveaway();
    giveaway.initialize(
        7,
        unique_key(),
        unique_key(),
        unique_key(),
        1_000_000,
        1,
        500,
        1_000,
        2_000,
        MIN_UPLOAD_DURATION_SECS,
        900,
    );

    assert_eq!(giveaway.account_version, GIVEAWAY_ACCOUNT_VERSION);
    assert_eq!(giveaway.reserved, [0; 110]);
}

#[test]
fn participant_progress_counters_support_u64_scale() {
    let mut giveaway = test_giveaway();
    let beyond_u32 = u64::from(u32::MAX) + 1;

    giveaway.participants_count = u64::from(u32::MAX);
    giveaway.add_participant().unwrap();
    assert_eq!(giveaway.participants_count, beyond_u32);

    giveaway.attested_count = u64::from(u32::MAX);
    giveaway.add_attestation().unwrap();
    assert_eq!(giveaway.attested_count, beyond_u32);

    giveaway.provider_uploaded_count = u64::from(u32::MAX);
    giveaway
        .add_uploaded_reveals(2, [7u8; 32])
        .expect("wide reveal counts should not be capped at u32");
    assert_eq!(giveaway.provider_uploaded_count, beyond_u32 + 1);

    giveaway.disqualified_count = u64::from(u32::MAX);
    giveaway.disqualify_participant().unwrap();
    assert_eq!(giveaway.disqualified_count, beyond_u32);
    assert_eq!(giveaway.get_eligible_participants_count(), 0);
}

#[test]
fn stores_canonical_index_and_verified_reveal_digest_in_reserved_bytes() {
    let mut participant = Participant {
        giveaway: [0; 32],
        wallet: [0; 32],
        commitment_hash: [0; 32],
        proof_text: String::new(),
        attested_uploaded: false,
        attested_at_unix: 0,
        reveal_included: false,
        disqualified: false,
        disqualification_reason: 0,
        disqualified_at_unix: 0,
        created_at_unix: 0,
        last_updated_unix: 0,
        reserved: [0; 64],
    };
    participant.initialize(
        unique_key(),
        unique_key(),
        [7; 32],
        "proof".to_string(),
        10,
        42,
    );
    participant.include_verified_reveal([9; 32], 11);

    assert_eq!(participant.participant_index(), 42);
    assert_eq!(participant.reveal_digest(), [9; 32]);
    assert!(participant.reveal_included);
}

fn below_one_kib(size: usize) -> bool {
    size < 1024
}

#[test]
fn account_size_is_fixed() {
    assert_eq!(
        WinnersLedger::calculate_size(1),
        WinnersLedger::calculate_size(1000)
    );
    assert!(below_one_kib(WinnersLedger::SIZE));
}
