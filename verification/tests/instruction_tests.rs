use giveaways::address::program_id;
use giveaways::error::GiveawayError;
use giveaways::events::GiveawayEvent;
use giveaways::instructions::begin_upload_phase::{self, BeginUploadPhase};
use giveaways::instructions::close_participant::{self, CloseParticipant};
use giveaways::instructions::settle_giveaway::{self, SettleGiveaway};
use giveaways::instructions::settle_no_eligible_giveaway::{self, SettleNoEligibleGiveaway};
use giveaways::instructions::disqualify_participant::{self, DisqualifyParticipant};
use giveaways::instructions::extend_active_deadline::{self, ExtendActiveDeadline};
use giveaways::instructions::initialize::{self, Initialize};
use giveaways::instructions::lock_winners::{self, LockWinners};
use giveaways::instructions::participate::{self, Participate};
use giveaways::instructions::recompute_winners::{self, RecomputeWinners};
use giveaways::instructions::update_service_charge::{self, UpdateServiceCharge};
use giveaways::instructions::upload_reveals::{self, RevealData, UploadReveals};
use giveaways::state::config::Config;
use giveaways::state::giveaway::{Giveaway, GiveawayStatus};
use giveaways::state::participant::Participant;
use giveaways::state::winners_ledger::WinnersLedger;
use giveaways::utils::account::{transfer_lamports, AccountSnapshot, ParticipantAccountInfo};
use giveaways::utils::crypto::{compute_reveal_digest, xor_reveal_digests};
use sha2::{Digest, Sha256};
use solana_program::pubkey::Pubkey;

fn key() -> [u8; 32] {
    Pubkey::new_unique().to_bytes()
}

fn snapshot(key: [u8; 32], lamports: u64) -> AccountSnapshot {
    AccountSnapshot {
        key,
        owner: program_id(),
        lamports,
        is_writable: true,
        is_signer: false,
        data_is_empty: false,
    }
}

fn config(authority: [u8; 32]) -> Config {
    Config {
        authority,
        service_fee_bps: 500,
        default_active_duration_secs: 7_200,
        default_upload_duration_secs: 3_600,
        created_at_unix: 0,
        last_updated_unix: 0,
        next_giveaway_id: 2,
        reserved: [0; 64],
    }
}

/// Active from 100 to 3_700, uploads from 3_700 to 7_300.
fn giveaway(creator: [u8; 32]) -> Giveaway {
    Giveaway {
        id: 1,
        config: [0; 32],
        creator,
        vault: [0; 32],
        status: GiveawayStatus::Active,
        total_payout_lamports: 1_000_000,
        number_of_winners: 1,
        service_fee_bps: 500,
        created_at_unix: 0,
        active_start_unix: 100,
        active_deadline_unix: 3_700,
        upload_start_unix: 3_700,
        upload_deadline_unix: 7_300,
        settlement_start_unix: 7_300,
        participants_count: 0,
        attested_count: 0,
        provider_uploaded_count: 0,
        poc_aggregate_hash: [0; 32],
        uploads_complete: false,
        disqualified_count: 0,
        winners_computed: false,
        winners_locked: false,
        recompute_version: 0,
        settled: false,
        remediation_start_unix: 0,
        remediation_deadline_unix: 0,
        account_version: 4,
        reserved: [0; 110],
    }
}

fn entry(giveaway: [u8; 32], wallet: [u8; 32], commitment_hash: [u8; 32]) -> Participant {
    Participant {
        giveaway,
        wallet,
        commitment_hash,
        proof_text: String::new(),
        attested_uploaded: true,
        attested_at_unix: 3_800,
        reveal_included: false,
        disqualified: false,
        disqualification_reason: 0,
        disqualified_at_unix: 0,
        created_at_unix: 200,
        last_updated_unix: 200,
        reserved: [0; 64],
    }
}

fn ledger(giveaway: [u8; 32]) -> WinnersLedger {
    WinnersLedger {
        giveaway,
        protocol_version: 0,
        threshold_key: [0; 64],
        winners_commitment: [0; 32],
        winners_count: 1,
        total_payout_lamports: 0,
        per_winner_lamports: 0,
        paid_count: 0,
        batches_processed: 0,
        recompute_version: 0,
        locked: false,
        computed_at_unix: 0,
        locked_at_unix: 0,
        settlement_started_at_unix: 0,
        settlement_completed_at_unix: 0,
        reserved: [0; 128],
    }
}

fn commitment(words: &str, salt: &[u8]) -> [u8; 32] {
    let mut plaintext = words.as_bytes().to_vec();
    plaintext.push(0x1f);
    plaintext.extend_from_slice(salt);
    Sha256::digest(&plaintext).into()
}

#[test]
fn initialize_checks_fee_and_default_windows() {
    let authority = key();
    let mut blank = config([0; 32]);
    blank.service_fee_bps = 0;
    blank.default_active_duration_secs = 0;
    blank.default_upload_duration_secs = 0;
    blank.next_giveaway_id = 0;
    let mut init = Initialize { config: blank, authority };
    assert_eq!(
        initialize::process(&mut init, 10_000, 7_200, 3_600, 5).unwrap_err(),
        GiveawayError::InvalidServiceFee
    );
    assert_eq!(
        initialize::process(&mut init, 500, 3_599, 3_600, 5).unwrap_err(),
        GiveawayError::InvalidDuration
    );
    assert_eq!(
        initialize::process(&mut init, 500, 7_200, 7 * 24 * 3600 + 1, 5).unwrap_err(),
        GiveawayError::InvalidDuration
    );
    initialize::process(&mut init, 9_999, 3_600, 3_600, 5).unwrap();
    assert_eq!(init.config.authority, authority);
    assert_eq!(init.config.service_fee_bps, 9_999);
    assert_eq!(init.config.next_giveaway_id, 1);
    assert_eq!(init.config.created_at_unix, 5);
    assert_eq!(
        initialize::process(&mut init, 500, 7_200, 3_600, 6).unwrap_err(),
        GiveawayError::AccountAlreadyInitialized
    );
    assert_eq!(init.config.service_fee_bps, 9_999);
    assert_eq!(init.config.created_at_unix, 5);
}

#[test]
fn service_charge_is_changed_only_by_the_authority() {
    let authority = key();
    let mut stranger = UpdateServiceCharge { config: config(authority), authority: key() };
    assert_eq!(
        update_service_charge::process(&mut stranger, 100, 9).unwrap_err(),
        GiveawayError::Unauthorized
    );
    let mut ctx = UpdateServiceCharge { config: config(authority), authority };
    assert_eq!(
        update_service_charge::process(&mut ctx, 10_000, 9).unwrap_err(),
        GiveawayError::InvalidServiceFee
    );
    update_service_charge::process(&mut ctx, 100, 9).unwrap();
    assert_eq!(ctx.config.service_fee_bps, 100);
    assert_eq!(ctx.config.last_updated_unix, 9);
}

#[test]
fn active_deadline_only_grows_and_moves_the_upload_window() {
    let creator = key();
    let ctx = |signer| ExtendActiveDeadline {
        config: config(key()),
        giveaway_key: key(),
        giveaway: giveaway(creator),
        creator: signer,
    };
    let mut other = ctx(key());
    assert_eq!(
        extend_active_deadline::process(&mut other, 5_000, 200).unwrap_err(),
        GiveawayError::CreatorMismatch
    );
    let mut late = ctx(creator);
    assert_eq!(
        extend_active_deadline::process(&mut late, 5_000, 3_700).unwrap_err(),
        GiveawayError::DeadlinePassed
    );
    let mut shorter = ctx(creator);
    assert_eq!(
        extend_active_deadline::process(&mut shorter, 3_700, 200).unwrap_err(),
        GiveawayError::CannotShorten
    );
    let mut too_long = ctx(creator);
    assert_eq!(
        extend_active_deadline::process(&mut too_long, 100 + 30 * 24 * 3600 + 1, 200).unwrap_err(),
        GiveawayError::InvalidDuration
    );
    let mut ok = ctx(creator);
    let events = extend_active_deadline::process(&mut ok, 5_000, 200).unwrap();
    assert_eq!(ok.giveaway.active_deadline_unix, 5_000);
    assert_eq!(ok.giveaway.upload_start_unix, 5_000);
    assert_eq!(ok.giveaway.upload_deadline_unix, 8_600);
    assert!(matches!(
        events[0],
        GiveawayEvent::GiveawayUpdated {
            active_deadline_unix: Some(5_000),
            upload_deadline_unix: Some(8_600),
            ..
        }
    ));
}

#[test]
fn early_upload_phase_is_disabled() {
    let authority = key();
    let ok = BeginUploadPhase {
        config: config(authority),
        giveaway_key: key(),
        giveaway: giveaway(key()),
        authority,
    };
    assert_eq!(begin_upload_phase::process(&ok).unwrap_err(), GiveawayError::EarlyUploadDisabled);
    let stranger = BeginUploadPhase { authority: key(), ..ok };
    assert_eq!(begin_upload_phase::process(&stranger).unwrap_err(), GiveawayError::Unauthorized);
}

#[test]
fn creator_disqualifies_before_uploads_with_a_known_reason() {
    let creator = key();
    let giveaway_key = key();
    let ctx = || DisqualifyParticipant {
        config: config(key()),
        giveaway_key,
        giveaway: giveaway(creator),
        participant_account_key: key(),
        participant_account: entry(giveaway_key, key(), [1; 32]),
        creator,
    };
    let mut bad_reason = ctx();
    assert_eq!(
        disqualify_participant::process(&mut bad_reason, 9, 200).unwrap_err(),
        GiveawayError::InvalidReasonCode
    );
    let mut too_late = ctx();
    assert_eq!(
        disqualify_participant::process(&mut too_late, 1, 3_700).unwrap_err(),
        GiveawayError::InvalidInstruction
    );
    let mut ok = ctx();
    let events = disqualify_participant::process(&mut ok, 255, 200).unwrap();
    assert!(ok.participant_account.disqualified);
    assert_eq!(ok.participant_account.disqualification_reason, 255);
    assert_eq!(ok.giveaway.disqualified_count, 1);
    assert!(matches!(events[0], GiveawayEvent::ParticipantDisqualified { reason_code: 255, .. }));
    let mut again = DisqualifyParticipant { ..ok };
    assert_eq!(
        disqualify_participant::process(&mut again, 1, 201).unwrap_err(),
        GiveawayError::AlreadyDisqualified
    );
}

#[test]
fn winners_lock_needs_computed_winners_and_the_creator() {
    let creator = key();
    let giveaway_key = key();
    let mut not_computed = LockWinners {
        config: config(key()),
        giveaway_key,
        giveaway: giveaway(creator),
        winners_ledger_key: key(),
        winners_ledger: ledger(giveaway_key),
        creator,
    };
    assert_eq!(
        lock_winners::process(&mut not_computed, 9_000).unwrap_err(),
        GiveawayError::WinnersNotComputed
    );
    let mut computed = giveaway(creator);
    computed.winners_computed = true;
    let mut stranger = LockWinners {
        config: config(key()),
        giveaway_key,
        giveaway: computed,
        winners_ledger_key: key(),
        winners_ledger: ledger(giveaway_key),
        creator: key(),
    };
    assert_eq!(
        lock_winners::process(&mut stranger, 9_000).unwrap_err(),
        GiveawayError::CreatorMismatch
    );
    let mut ok = LockWinners { creator, ..stranger };
    lock_winners::process(&mut ok, 9_000).unwrap();
    assert!(ok.giveaway.winners_locked);
    assert!(ok.winners_ledger.locked);
    assert_eq!(ok.winners_ledger.locked_at_unix, 9_000);
}

#[test]
fn recompute_is_always_refused() {
    let creator = key();
    let giveaway_key = key();
    let ctx = RecomputeWinners {
        config: config(key()),
        giveaway_key,
        giveaway: giveaway(creator),
        winners_ledger: ledger(giveaway_key),
        signer: creator,
    };
    assert_eq!(recompute_winners::process(&ctx).unwrap_err(), GiveawayError::InvalidInstruction);
    let stranger = RecomputeWinners { signer: key(), ..ctx };
    assert_eq!(recompute_winners::process(&stranger).unwrap_err(), GiveawayError::Unauthorized);
    let mut settled = giveaway(creator);
    settled.settled = true;
    let done = RecomputeWinners { giveaway: settled, ..stranger };
    assert_eq!(
        recompute_winners::process(&done).unwrap_err(),
        GiveawayError::GiveawayAlreadySettled
    );
}

struct Uploads {
    ctx: UploadReveals,
    keys: Vec<[u8; 32]>,
    wallets: Vec<[u8; 32]>,
}

fn uploads(authority: [u8; 32], reveals: &[(&str, &[u8])]) -> Uploads {
    let giveaway_key = key();
    let mut g = giveaway(key());
    g.participants_count = reveals.len() as u64;
    g.attested_count = reveals.len() as u64;
    let mut accounts = Vec::new();
    let mut keys = Vec::new();
    let mut wallets = Vec::new();
    for (words, salt) in reveals {
        let account_key = key();
        let wallet = key();
        accounts.push(ParticipantAccountInfo {
            account: snapshot(account_key, 0),
            participant: Some(entry(giveaway_key, wallet, commitment(words, salt))),
        });
        keys.push(account_key);
        wallets.push(wallet);
    }
    Uploads {
        ctx: UploadReveals {
            config: config(authority),
            giveaway_key,
            giveaway: g,
            authority,
            remaining_accounts: accounts,
        },
        keys,
        wallets,
    }
}

fn reveal_of(participant: [u8; 32], words: &str, salt: &[u8]) -> RevealData {
    RevealData { participant, lucky_words: words.to_string(), salt: salt.to_vec() }
}

#[test]
fn provider_upload_includes_reveals_and_aggregates_their_digests() {
    let authority = key();
    let mut u = uploads(authority, &[("alpha", b"s1"), ("beta", b"s2")]);
    let batch = vec![reveal_of(u.keys[0], "alpha", b"s1"), reveal_of(u.keys[1], "beta", b"s2")];
    let events = upload_reveals::process(&mut u.ctx, batch, 4_000).unwrap();
    let expected = xor_reveal_digests(
        [0; 32],
        &[
            compute_reveal_digest(&u.wallets[0], b"alpha\x1fs1"),
            compute_reveal_digest(&u.wallets[1], b"beta\x1fs2"),
        ],
    );
    assert_eq!(u.ctx.giveaway.poc_aggregate_hash, expected);
    assert_eq!(u.ctx.giveaway.provider_uploaded_count, 2);
    assert!(u.ctx.giveaway.uploads_complete);
    for info in &u.ctx.remaining_accounts {
        let p = info.participant.as_ref().unwrap();
        assert!(p.reveal_included);
        assert_eq!(p.last_updated_unix, 4_000);
    }
    match &events[0] {
        GiveawayEvent::RevealsUploaded { batch_size, aggregate_hash, uploads_complete, .. } => {
            assert_eq!(*batch_size, 2);
            assert_eq!(*aggregate_hash, hex::encode(expected));
            assert!(*uploads_complete);
        }
        other => panic!("unexpected event {:?}", other),
    }
}

#[test]
fn provider_upload_rejects_repeats_and_wrong_reveals() {
    let authority = key();
    let mut repeated = uploads(authority, &[("alpha", b"s1")]);
    let batch = vec![reveal_of(repeated.keys[0], "alpha", b"s1"), reveal_of(repeated.keys[0], "alpha", b"s1")];
    assert_eq!(
        upload_reveals::process(&mut repeated.ctx, batch, 4_000).unwrap_err(),
        GiveawayError::InvalidReveal
    );
    let untouched = repeated.ctx.remaining_accounts[0].participant.as_ref().unwrap();
    assert!(!untouched.reveal_included);
    assert_eq!(untouched.last_updated_unix, 200);
    assert_eq!(repeated.ctx.giveaway.provider_uploaded_count, 0);
    assert_eq!(repeated.ctx.giveaway.poc_aggregate_hash, [0; 32]);
    let mut wrong = uploads(authority, &[("alpha", b"s1")]);
    let batch = vec![reveal_of(wrong.keys[0], "alpha", b"s2")];
    assert_eq!(
        upload_reveals::process(&mut wrong.ctx, batch, 4_000).unwrap_err(),
        GiveawayError::InvalidReveal
    );
    let mut unknown = uploads(authority, &[("alpha", b"s1")]);
    let batch = vec![reveal_of(key(), "alpha", b"s1")];
    assert_eq!(
        upload_reveals::process(&mut unknown.ctx, batch, 4_000).unwrap_err(),
        GiveawayError::InvalidAccount
    );
    let mut stranger = uploads(authority, &[("alpha", b"s1")]);
    stranger.ctx.authority = key();
    let batch = vec![reveal_of(stranger.keys[0], "alpha", b"s1")];
    assert_eq!(
        upload_reveals::process(&mut stranger.ctx, batch, 4_000).unwrap_err(),
        GiveawayError::Unauthorized
    );
    let mut empty = uploads(authority, &[("alpha", b"s1")]);
    assert_eq!(
        upload_reveals::process(&mut empty.ctx, vec![], 4_000).unwrap_err(),
        GiveawayError::InvalidInstruction
    );
}

#[test]
fn provider_upload_waits_for_the_window_unless_everyone_attested() {
    let authority = key();
    let mut early = uploads(authority, &[("alpha", b"s1")]);
    early.ctx.giveaway.attested_count = 0;
    let batch = vec![reveal_of(early.keys[0], "alpha", b"s1")];
    assert_eq!(
        upload_reveals::process(&mut early.ctx, batch, 1_000).unwrap_err(),
        GiveawayError::UploadWindowNotStarted
    );
    let mut all_attested = uploads(authority, &[("alpha", b"s1")]);
    let batch = vec![reveal_of(all_attested.keys[0], "alpha", b"s1")];
    upload_reveals::process(&mut all_attested.ctx, batch, 1_000).unwrap();
    assert_eq!(all_attested.ctx.giveaway.provider_uploaded_count, 1);
}

#[test]
fn lamport_transfer_conserves_the_total() {
    let mut from = snapshot(key(), 1_000);
    let mut to = snapshot(key(), 5);
    transfer_lamports(&mut from, &mut to, 400).unwrap();
    assert_eq!((from.lamports, to.lamports), (600, 405));
    assert_eq!(
        transfer_lamports(&mut from, &mut to, 601).unwrap_err(),
        GiveawayError::InsufficientFunds
    );
    assert_eq!((from.lamports, to.lamports), (600, 405));
    let mut full = snapshot(key(), u64::MAX);
    assert_eq!(
        transfer_lamports(&mut from, &mut full, 1).unwrap_err(),
        GiveawayError::MathOverflow
    );
}

#[test]
fn entries_stop_at_the_participant_cap() {
    let giveaway_key = key();
    let wallet = key();
    let mut full = giveaway(key());
    full.participants_count = 4096;
    let mut joining = Participate {
        config: config(key()),
        giveaway_key,
        giveaway: full,
        participant_account_key: key(),
        participant_account: entry([0; 32], [0; 32], [0; 32]),
        participant: wallet,
    };
    assert_eq!(
        participate::process(&mut joining, [1; 32], "proof".to_string(), 200).unwrap_err(),
        GiveawayError::TooManyParticipants
    );
    let mut updating = Participate {
        config: config(key()),
        giveaway_key,
        giveaway: full,
        participant_account_key: key(),
        participant_account: entry(giveaway_key, wallet, [1; 32]),
        participant: wallet,
    };
    let events = participate::process(&mut updating, [2; 32], "new".to_string(), 200).unwrap();
    assert!(matches!(events[0], GiveawayEvent::ParticipationSubmitted { is_update: true, .. }));
    assert_eq!(updating.participant_account.commitment_hash, [2; 32]);
    assert_eq!(updating.giveaway.participants_count, 4096);
    let mut below = giveaway(key());
    below.participants_count = 4095;
    let mut last = Participate {
        config: config(key()),
        giveaway_key,
        giveaway: below,
        participant_account_key: key(),
        participant_account: entry([0; 32], [0; 32], [0; 32]),
        participant: wallet,
    };
    participate::process(&mut last, [1; 32], "proof".to_string(), 200).unwrap();
    assert_eq!(last.giveaway.participants_count, 4096);
    assert_eq!(last.participant_account.participant_index(), 4095);
}

fn signer(key: [u8; 32], lamports: u64) -> AccountSnapshot {
    AccountSnapshot { is_signer: true, ..snapshot(key, lamports) }
}

/// A giveaway nobody joined, past its participation deadline.
fn empty_giveaway(config_key: [u8; 32], creator: [u8; 32], vault: [u8; 32]) -> Giveaway {
    let mut g = giveaway(creator);
    g.config = config_key;
    g.vault = vault;
    g
}

#[test]
fn refund_needs_both_signatures() {
    let creator = key();
    let authority = key();
    let config_key = key();
    let vault = key();
    let ctx = |creator_signs: bool, authority_signs: bool| SettleGiveaway {
        config_key,
        config: config(authority),
        giveaway_key: key(),
        giveaway: empty_giveaway(config_key, creator, vault),
        vault: snapshot(vault, 1_000_000),
        creator: AccountSnapshot { is_signer: creator_signs, ..snapshot(creator, 5) },
        authority: AccountSnapshot { is_signer: authority_signs, ..snapshot(authority, 0) },
    };
    for (c, a) in [(false, true), (true, false), (false, false)] {
        let mut unsigned = ctx(c, a);
        assert_eq!(
            settle_giveaway::process(&mut unsigned, 4_000).unwrap_err(),
            GiveawayError::MissingSigner
        );
        assert_eq!(unsigned.vault.lamports, 1_000_000);
        assert_eq!(unsigned.creator.lamports, 5);
        assert!(!unsigned.giveaway.settled);
    }
    let mut signed = ctx(true, true);
    let events = settle_giveaway::process(&mut signed, 4_000).unwrap();
    assert_eq!(signed.vault.lamports, 0);
    assert_eq!(signed.creator.lamports, 1_000_005);
    assert!(signed.giveaway.settled);
    assert!(matches!(events[0], GiveawayEvent::NoWinners { .. }));
}

#[test]
fn no_winner_refund_needs_both_signatures() {
    let creator = key();
    let config_key = key();
    let vault = key();
    let giveaway_key = key();
    let mut g = empty_giveaway(config_key, creator, vault);
    g.winners_computed = true;
    let mut ledger_zero = ledger(giveaway_key);
    ledger_zero.winners_count = 0;
    let mut unsigned = SettleNoEligibleGiveaway {
        config_key,
        config: config(key()),
        giveaway_key,
        giveaway: g,
        vault: snapshot(vault, 700),
        winners_ledger: ledger_zero,
        creator: snapshot(creator, 0),
        authority: signer(creator, 0),
    };
    assert_eq!(
        settle_no_eligible_giveaway::process(&mut unsigned, 9_000).unwrap_err(),
        GiveawayError::MissingSigner
    );
    assert_eq!(unsigned.vault.lamports, 700);
    let mut signed = SettleNoEligibleGiveaway { creator: signer(creator, 0), ..unsigned };
    settle_no_eligible_giveaway::process(&mut signed, 9_000).unwrap();
    assert_eq!(signed.vault.lamports, 0);
    assert_eq!(signed.creator.lamports, 700);
    assert!(signed.giveaway.settled);
}

#[test]
fn closing_an_entry_moves_its_rent_to_the_wallet() {
    let config_key = key();
    let giveaway_key = key();
    let wallet = key();
    let entry_key = key();
    let mut settled = empty_giveaway(config_key, key(), key());
    settled.settled = true;
    let ctx = |g: Giveaway, signs: bool| CloseParticipant {
        config_key,
        config: config(key()),
        giveaway_key,
        giveaway: g,
        participant_account: snapshot(entry_key, 2_000),
        participant_entry: entry(giveaway_key, wallet, [1; 32]),
        participant: AccountSnapshot { is_signer: signs, ..snapshot(wallet, 10) },
    };
    let mut open = ctx(empty_giveaway(config_key, key(), key()), true);
    assert_eq!(
        close_participant::process(&mut open, 5).unwrap_err(),
        GiveawayError::InvalidInstruction
    );
    assert_eq!(open.participant_account.lamports, 2_000);
    let mut unsigned = ctx(settled, false);
    assert_eq!(
        close_participant::process(&mut unsigned, 5).unwrap_err(),
        GiveawayError::MissingSigner
    );
    let mut ok = ctx(settled, true);
    let events = close_participant::process(&mut ok, 5).unwrap();
    assert_eq!(ok.participant_account.lamports, 0);
    assert!(ok.participant_account.data_is_empty);
    assert_eq!(ok.participant_account.owner, [0; 32]);
    assert_eq!(ok.participant.lamports, 2_010);
    assert!(matches!(events[0], GiveawayEvent::ParticipantClosed { rent_reclaimed: 2_000, .. }));
}
