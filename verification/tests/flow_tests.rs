use giveaways::address::program_id;
use giveaways::error::GiveawayError;
use giveaways::events::GiveawayEvent;
use giveaways::instructions::attest_reveal::{self, AttestReveal};
use giveaways::instructions::create_giveaway::{self, CreateGiveaway};
use giveaways::instructions::finalize_winners::{self, FinalizeWinners};
use giveaways::instructions::initialize::{self, Initialize};
use giveaways::instructions::participate::{self, Participate};
use giveaways::instructions::settle_payout_batch::{self, SettlePayoutBatch, WinnerProof};
use giveaways::state::config::Config;
use giveaways::state::finalization_ledger::{FinalizationLedger, PHASE_COMPLETED};
use giveaways::state::giveaway::{Giveaway, GiveawayStatus};
use giveaways::state::participant::Participant;
use giveaways::state::winners_ledger::WinnersLedger;
use giveaways::utils::account::{AccountSnapshot, ParticipantAccountInfo};
use sha2::{Digest, Sha256};
use solana_program::pubkey::Pubkey;

fn key() -> [u8; 32] {
    Pubkey::new_unique().to_bytes()
}

fn snapshot(key: [u8; 32], owner: [u8; 32], lamports: u64) -> AccountSnapshot {
    AccountSnapshot {
        key,
        owner,
        lamports,
        is_writable: true,
        is_signer: false,
        data_is_empty: false,
    }
}

fn zero_config() -> Config {
    Config {
        authority: [0; 32],
        service_fee_bps: 0,
        default_active_duration_secs: 0,
        default_upload_duration_secs: 0,
        created_at_unix: 0,
        last_updated_unix: 0,
        next_giveaway_id: 0,
        reserved: [0; 64],
    }
}

fn zero_giveaway() -> Giveaway {
    Giveaway {
        id: 0,
        config: [0; 32],
        creator: [0; 32],
        vault: [0; 32],
        status: GiveawayStatus::Active,
        total_payout_lamports: 0,
        number_of_winners: 0,
        service_fee_bps: 0,
        created_at_unix: 0,
        active_start_unix: 0,
        active_deadline_unix: 0,
        upload_start_unix: 0,
        upload_deadline_unix: 0,
        settlement_start_unix: 0,
        participants_count: 0,
        attested_count: 0,
        provider_uploaded_count: 0,
        poc_aggregate_hash: [0; 32],
        uploads_complete: false,
        disqualified_count: 0,
        winners_computed: false,
        winners_locked: false,
        recompute_version: 0,
        settled: false,
        remediation_start_unix: 0,
        remediation_deadline_unix: 0,
        account_version: 0,
        reserved: [0; 110],
    }
}

fn zero_participant() -> Participant {
    Participant {
        giveaway: [0; 32],
        wallet: [0; 32],
        commitment_hash: [0; 32],
        proof_text: String::new(),
        attested_uploaded: false,
        attested_at_unix: 0,
        reveal_included: false,
        disqualified: false,
        disqualification_reason: 0,
        disqualified_at_unix: 0,
        created_at_unix: 0,
        last_updated_unix: 0,
        reserved: [0; 64],
    }
}

fn zero_winners_ledger() -> WinnersLedger {
    WinnersLedger {
        giveaway: [0; 32],
        protocol_version: 0,
        threshold_key: [0; 64],
        winners_commitment: [0; 32],
        winners_count: 0,
        total_payout_lamports: 0,
        per_winner_lamports: 0,
        paid_count: 0,
        batches_processed: 0,
        recompute_version: 0,
        locked: false,
        computed_at_unix: 0,
        locked_at_unix: 0,
        settlement_started_at_unix: 0,
        settlement_completed_at_unix: 0,
        reserved: [0; 128],
    }
}

fn zero_finalization_ledger() -> FinalizationLedger {
    FinalizationLedger {
        giveaway: [0; 32],
        protocol_version: 0,
        recompute_version: 0,
        phase: 0,
        required_count: 0,
        processed_count: 0,
        eligible_count: 0,
        target_winners: 0,
        seed: [0; 32],
        participants_commitment: [0; 32],
        prefix: [0; 64],
        prefix_len: 0,
        remaining_rank: 0,
        histogram: [0; 256],
        threshold_key: [0; 64],
        threshold_found: 0,
        completed: 0,
        started_at_unix: 0,
        completed_at_unix: 0,
        reserved: [0; 64],
    }
}

fn participant_pda(program: &[u8; 32], giveaway: &[u8; 32], wallet: &[u8; 32]) -> [u8; 32] {
    Pubkey::find_program_address(
        &[b"participant", giveaway.as_ref(), wallet.as_ref()],
        &Pubkey::new_from_array(*program),
    )
    .0
    .to_bytes()
}

fn commitment(words: &str, salt: &[u8]) -> [u8; 32] {
    let mut plaintext = words.as_bytes().to_vec();
    plaintext.push(0x1f);
    plaintext.extend_from_slice(salt);
    Sha256::digest(&plaintext).into()
}

struct Scenario {
    program: [u8; 32],
    authority: [u8; 32],
    creator: [u8; 32],
    config_key: [u8; 32],
    config: Config,
    giveaway_key: [u8; 32],
    giveaway: Giveaway,
    vault_key: [u8; 32],
    wallets: Vec<[u8; 32]>,
    entries: Vec<Participant>,
}

/// A giveaway of 1_000_000 lamports for `winners` winners at a 5% fee, with
/// `n` participants who all revealed directly.
fn revealed_giveaway(n: usize, winners: u32) -> Scenario {
    let program = program_id();
    let authority = key();
    let creator = key();
    let mut init = Initialize { config: zero_config(), authority };
    initialize::process(&mut init, 500, 7_200, 3_600, 0).unwrap();
    let config_key = key();
    let giveaway_key = key();
    let vault_key = key();
    let mut create = CreateGiveaway {
        config_key,
        config: init.config,
        giveaway_key,
        giveaway: zero_giveaway(),
        vault: AccountSnapshot { data_is_empty: true, ..snapshot(vault_key, [0; 32], 0) },
        creator: snapshot(creator, [0; 32], 10_000_000),
    };
    let events = create_giveaway::process(
        &mut create,
        1,
        1_000_000,
        winners,
        100,
        3_700,
        3_600,
        890_880,
        100,
    )
    .unwrap();
    assert_eq!(create.vault.lamports, 890_880 + 1_000_000);
    assert_eq!(create.creator.lamports, 10_000_000 - 890_880 - 1_000_000);
    assert!(matches!(events[0], GiveawayEvent::GiveawayCreated { giveaway_id: 1, .. }));
    assert_eq!(create.config.next_giveaway_id, 2);
    let mut giveaway = create.giveaway;
    let config = create.config;
    let mut wallets = Vec::new();
    let mut entries = Vec::new();
    for i in 0..n {
        let wallet = key();
        let words = format!("lucky{}", i);
        let salt = format!("s{}", i).into_bytes();
        let mut ctx = Participate {
            config: Config { ..config },
            giveaway_key,
            giveaway,
            participant_account_key: participant_pda(&program, &giveaway_key, &wallet),
            participant_account: zero_participant(),
            participant: wallet,
        };
        participate::process(&mut ctx, commitment(&words, &salt), "proof".to_string(), 200)
            .unwrap();
        assert_eq!(ctx.participant_account.participant_index(), i as u64);
        giveaway = ctx.giveaway;
        let mut reveal = AttestReveal {
            config_key,
            config: Config { ..config },
            giveaway_key,
            giveaway,
            participant_account_key: participant_pda(&program, &giveaway_key, &wallet),
            participant_account: ctx.participant_account,
            participant: wallet,
        };
        let events = attest_reveal::process(&mut reveal, words, salt, 4_000).unwrap();
        assert_eq!(events.len(), 2);
        giveaway = reveal.giveaway;
        wallets.push(wallet);
        entries.push(reveal.participant_account);
    }
    Scenario {
        program,
        authority,
        creator,
        config_key,
        config,
        giveaway_key,
        giveaway,
        vault_key,
        wallets,
        entries,
    }
}

fn infos(s: &mut Scenario) -> Vec<ParticipantAccountInfo> {
    let entries = std::mem::take(&mut s.entries);
    entries
        .into_iter()
        .zip(s.wallets.iter())
        .map(|(entry, wallet)| ParticipantAccountInfo {
            account: snapshot(participant_pda(&s.program, &s.giveaway_key, wallet), s.program, 0),
            participant: Some(entry),
        })
        .collect()
}

/// Runs finalization chunks until the winners are locked.
fn finalize(s: &mut Scenario) -> (WinnersLedger, Vec<GiveawayEvent>) {
    let mut ctx = FinalizeWinners {
        config: Config { ..s.config },
        giveaway_key: s.giveaway_key,
        giveaway: s.giveaway,
        vault: s.vault_key,
        winners_ledger_key: key(),
        winners_ledger: zero_winners_ledger(),
        finalization_ledger_key: key(),
        finalization_ledger: zero_finalization_ledger(),
        authority: s.authority,
        remaining_accounts: infos(s),
    };
    let mut all_events = Vec::new();
    for _ in 0..200 {
        let events = finalize_winners::process(&mut ctx, &s.program, 8_000).unwrap();
        all_events.extend(events);
        if ctx.giveaway.winners_locked {
            break;
        }
    }
    assert_eq!(ctx.finalization_ledger.phase, PHASE_COMPLETED);
    s.giveaway = ctx.giveaway;
    s.entries = ctx
        .remaining_accounts
        .into_iter()
        .map(|info| info.participant.unwrap())
        .collect();
    (ctx.winners_ledger, all_events)
}

fn selected_wallets(s: &Scenario, events: &[GiveawayEvent]) -> Vec<(usize, u32)> {
    events
        .iter()
        .filter_map(|event| match event {
            GiveawayEvent::WinnerSelected { participant, emission_index, .. } => {
                let position = s
                    .wallets
                    .iter()
                    .position(|w| Pubkey::new_from_array(*w).to_string() == *participant)
                    .unwrap();
                Some((position, *emission_index))
            }
            _ => None,
        })
        .collect()
}

#[test]
fn full_giveaway_pays_every_winner_once_and_settles() {
    let mut s = revealed_giveaway(3, 2);
    assert!(s.giveaway.uploads_complete);
    let (ledger, events) = finalize(&mut s);
    assert!(s.giveaway.winners_computed && s.giveaway.winners_locked);
    assert_eq!(ledger.winners_count, 2);
    assert_eq!(ledger.per_winner_lamports, 475_000);
    assert_eq!(ledger.total_payout_lamports, 950_000);
    let selected = selected_wallets(&s, &events);
    assert_eq!(selected.len(), 2);
    let indices: Vec<u32> = selected.iter().map(|p| p.1).collect();
    assert_eq!(indices, vec![0, 1]);
    assert!(events.iter().any(|e| matches!(e, GiveawayEvent::WinnersComputed { .. })));

    let mut remaining = Vec::new();
    let mut proofs = Vec::new();
    for (position, emission_index) in &selected {
        let wallet = s.wallets[*position];
        remaining.push(ParticipantAccountInfo {
            account: snapshot(participant_pda(&s.program, &s.giveaway_key, &wallet), s.program, 0),
            participant: Some(s.entries[*position].duplicate()),
        });
        remaining.push(ParticipantAccountInfo {
            account: snapshot(wallet, [0; 32], 0),
            participant: None,
        });
        proofs.push(WinnerProof {
            winner: wallet,
            amount: 475_000,
            winner_index: *emission_index,
            merkle_proof: vec![],
        });
    }
    let mut payout = SettlePayoutBatch {
        config: Config { ..s.config },
        giveaway_key: s.giveaway_key,
        giveaway: s.giveaway,
        vault: snapshot(s.vault_key, s.program, 1_000_000),
        winners_ledger_key: key(),
        winners_ledger: ledger,
        authority: snapshot(s.authority, [0; 32], 0),
        creator: snapshot(s.creator, [0; 32], 0),
        remaining_accounts: remaining,
    };
    let first = vec![WinnerProof { merkle_proof: vec![], ..proofs[0] }];
    let paid = settle_payout_batch::process(&mut payout, &s.program, 0, first, 9_000).unwrap();
    assert_eq!(paid.len(), 1);
    assert_eq!(payout.remaining_accounts[1].account.lamports, 475_000);
    assert_eq!(payout.vault.lamports, 525_000);

    let again = vec![WinnerProof { merkle_proof: vec![], ..proofs[0] }];
    let skipped = settle_payout_batch::process(&mut payout, &s.program, 1, again, 9_001).unwrap();
    assert!(skipped.is_empty());
    assert_eq!(payout.remaining_accounts[1].account.lamports, 475_000);

    let events = settle_payout_batch::process(&mut payout, &s.program, 2, proofs, 9_002).unwrap();
    assert!(matches!(events[0], GiveawayEvent::WinnerPaid { amount_lamports: 475_000, .. }));
    assert!(events.iter().any(|e| matches!(
        e,
        GiveawayEvent::ServiceFeePaid { service_fee_lamports: 50_000, .. }
    )));
    assert!(matches!(events.last().unwrap(), GiveawayEvent::GiveawaySettled { total_winners: 2, .. }));
    assert_eq!(payout.remaining_accounts[1].account.lamports, 475_000);
    assert_eq!(payout.remaining_accounts[3].account.lamports, 475_000);
    assert_eq!(payout.authority.lamports, 50_000);
    assert_eq!(payout.vault.lamports, 0);
    assert!(payout.giveaway.settled);

    let after = settle_payout_batch::process(&mut payout, &s.program, 3, vec![], 9_003).unwrap();
    assert!(after.is_empty());
}

#[test]
fn finalization_picks_everyone_when_pool_is_smaller_than_winner_count() {
    let mut s = revealed_giveaway(2, 5);
    let (ledger, events) = finalize(&mut s);
    assert_eq!(ledger.winners_count, 2);
    let mut positions: Vec<usize> = selected_wallets(&s, &events).into_iter().map(|p| p.0).collect();
    positions.sort();
    assert_eq!(positions, vec![0, 1]);
}

#[test]
fn finalization_is_deterministic_for_the_same_reveals() {
    let mut s = revealed_giveaway(4, 2);
    let entries: Vec<Participant> = s.entries.iter().map(|e| e.duplicate()).collect();
    let giveaway = s.giveaway;
    let (ledger_a, events_a) = finalize(&mut s);
    s.entries = entries;
    s.giveaway = giveaway;
    let (ledger_b, events_b) = finalize(&mut s);
    assert_eq!(ledger_a.threshold_key, ledger_b.threshold_key);
    assert_eq!(selected_wallets(&s, &events_a), selected_wallets(&s, &events_b));
}

#[test]
fn finalization_rejects_an_out_of_order_chunk() {
    let mut s = revealed_giveaway(2, 1);
    let mut accounts = infos(&mut s);
    accounts.reverse();
    let mut ctx = FinalizeWinners {
        config: Config { ..s.config },
        giveaway_key: s.giveaway_key,
        giveaway: s.giveaway,
        vault: s.vault_key,
        winners_ledger_key: key(),
        winners_ledger: zero_winners_ledger(),
        finalization_ledger_key: key(),
        finalization_ledger: zero_finalization_ledger(),
        authority: s.authority,
        remaining_accounts: accounts,
    };
    assert_eq!(
        finalize_winners::process(&mut ctx, &s.program, 8_000).unwrap_err(),
        GiveawayError::InvalidInstruction
    );
}

#[test]
fn finalization_waits_for_settlement_readiness() {
    let mut s = revealed_giveaway(1, 1);
    s.giveaway.uploads_complete = false;
    s.giveaway.attested_count = 2;
    let mut ctx = FinalizeWinners {
        config: Config { ..s.config },
        giveaway_key: s.giveaway_key,
        giveaway: s.giveaway,
        vault: s.vault_key,
        winners_ledger_key: key(),
        winners_ledger: zero_winners_ledger(),
        finalization_ledger_key: key(),
        finalization_ledger: zero_finalization_ledger(),
        authority: s.authority,
        remaining_accounts: infos(&mut s),
    };
    assert_eq!(
        finalize_winners::process(&mut ctx, &s.program, 5_000).unwrap_err(),
        GiveawayError::SettlementNotReady
    );
    let events = finalize_winners::process(&mut ctx, &s.program, 7_400).unwrap();
    assert!(matches!(events[0], GiveawayEvent::RevealRemediationBegan { .. }));
    assert_eq!(ctx.giveaway.remediation_start_unix, 7_400);
    assert_eq!(ctx.giveaway.remediation_deadline_unix, 7_400 + 30 * 60);
}

#[test]
fn payout_refuses_an_amount_other_than_the_share() {
    let mut s = revealed_giveaway(1, 1);
    let (ledger, _) = finalize(&mut s);
    let wallet = s.wallets[0];
    let mut payout = SettlePayoutBatch {
        config: Config { ..s.config },
        giveaway_key: s.giveaway_key,
        giveaway: s.giveaway,
        vault: snapshot(s.vault_key, s.program, 1_000_000),
        winners_ledger_key: key(),
        winners_ledger: ledger,
        authority: snapshot(s.authority, [0; 32], 0),
        creator: snapshot(s.creator, [0; 32], 0),
        remaining_accounts: vec![
            ParticipantAccountInfo {
                account: snapshot(participant_pda(&s.program, &s.giveaway_key, &wallet), s.program, 0),
                participant: Some(s.entries[0].duplicate()),
            },
            ParticipantAccountInfo { account: snapshot(wallet, [0; 32], 0), participant: None },
        ],
    };
    let proof = WinnerProof { winner: wallet, amount: 1, winner_index: 0, merkle_proof: vec![] };
    assert_eq!(
        settle_payout_batch::process(&mut payout, &s.program, 0, vec![proof], 9_000).unwrap_err(),
        GiveawayError::InvalidBatch
    );
    assert_eq!(payout.vault.lamports, 1_000_000);
    assert_eq!(payout.remaining_accounts[1].account.lamports, 0);
    assert_eq!(payout.winners_ledger.paid_count, 0);
    assert_eq!(payout.giveaway.settlement_start_unix, s.giveaway.settlement_start_unix);
}

#[test]
fn creation_funds_a_fresh_vault_with_rent_and_payout() {
    let mut init = Initialize { config: zero_config(), authority: key() };
    initialize::process(&mut init, 500, 7_200, 3_600, 0).unwrap();
    let creator = key();
    let ctx = |vault: AccountSnapshot, creator_lamports: u64| CreateGiveaway {
        config_key: key(),
        config: Config { ..init.config },
        giveaway_key: key(),
        giveaway: zero_giveaway(),
        vault,
        creator: snapshot(creator, [0; 32], creator_lamports),
    };
    let fresh = AccountSnapshot { data_is_empty: true, ..snapshot(key(), [0; 32], 0) };
    let mut existing = ctx(AccountSnapshot { lamports: 1, ..fresh }, 5_000_000);
    assert_eq!(
        create_giveaway::process(&mut existing, 1, 1_000_000, 1, 100, 3_700, 3_600, 890_880, 100)
            .unwrap_err(),
        GiveawayError::AccountAlreadyInitialized
    );
    let mut short = ctx(fresh, 1_500_000);
    assert_eq!(
        create_giveaway::process(&mut short, 1, 1_000_000, 1, 100, 3_700, 3_600, 890_880, 100)
            .unwrap_err(),
        GiveawayError::InsufficientFunds
    );
    assert_eq!(short.creator.lamports, 1_500_000);
    assert_eq!(short.config.next_giveaway_id, 1);
    let mut ok = ctx(fresh, 1_890_880);
    create_giveaway::process(&mut ok, 1, 1_000_000, 1, 100, 3_700, 3_600, 890_880, 100).unwrap();
    assert_eq!(ok.creator.lamports, 0);
    assert_eq!(ok.vault.lamports, 1_890_880);
}
