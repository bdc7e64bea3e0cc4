use giveaways::instructions::settle_giveaway::refund_reason;
use giveaways::state::giveaway::{Giveaway, GiveawayStatus, GIVEAWAY_ACCOUNT_VERSION};
use solana_program::pubkey::Pubkey;

fn test_giveaway() -> Giveaway {
    Giveaway {
        id: 1,
        config: Pubkey::new_unique().to_bytes(),
        creator: Pubkey::new_unique().to_bytes(),
        vault: Pubkey::new_unique().to_bytes(),
        status: GiveawayStatus::Active,
        total_payout_lamports: 1_000_000,
        number_of_winners: 10,
        service_fee_bps: 500,
        created_at_unix: 0,
        active_start_unix: 0,
        active_deadline_unix: 100,
        upload_start_unix: 100,
        upload_deadline_unix: 200,
        settlement_start_unix: 0,
        participants_count: 0,
        attested_count: 0,
        provider_uploaded_count: 0,
        poc_aggregate_hash: [0; 32],
        uploads_complete: false,
        disqualified_count: 0,
        winners_computed: false,
        winners_locked: false,
        recompute_version: 0,
        settled: false,
        remediation_start_unix: 0,
        remediation_deadline_unix: 0,
        account_version: GIVEAWAY_ACCOUNT_VERSION,
        reserved: [0; 110],
    }
}

#[test]
fn refund_reason_accepts_simple_refund_paths() {
    let mut giveaway = test_giveaway();
    assert_eq!(refund_reason(&giveaway, 100).unwrap(), "no_participants");

    giveaway.participants_count = 3;
    assert_eq!(refund_reason(&giveaway, 200).unwrap(), "no_attesters");

    giveaway.attested_count = 2;
    giveaway.provider_uploaded_count = 1;
    giveaway.remediation_start_unix = 201;
    giveaway.remediation_deadline_unix = 301;
    assert_eq!(
        refund_reason(&giveaway, 302).unwrap(),
        "accepted_reveals_omitted_after_remediation"
    );
}

#[test]
fn refund_reason_rejects_no_eligible_finalization_path() {
    let mut giveaway = test_giveaway();
    giveaway.participants_count = 3;
    giveaway.attested_count = 3;
    giveaway.provider_uploaded_count = 3;
    giveaway.uploads_complete = true;
    giveaway.winners_computed = true;

    assert!(refund_reason(&giveaway, 250).is_err());
}
