use std::str::FromStr;

use giveaways::address::program_id;
use giveaways::constants::{giveaway_attestation_domain_v1, giveaway_reveal_domain_v1};
use giveaways::error::GiveawayError;
use giveaways::events::GiveawayEvent;
use giveaways::instructions::attest_uploaded::{self, is_provider_receipt, parse_ed25519_ix, AttestUploaded};
use giveaways::instructions::participate::{self, Participate};
use giveaways::state::config::Config;
use giveaways::state::giveaway::{Giveaway, GiveawayStatus};
use giveaways::state::participant::Participant;
use giveaways::utils::crypto::{compute_reveal_digest, parse_reveal_data};
use giveaways::utils::pda::derive_participant_pda;
use sha2::{Digest, Sha256};
use solana_program::pubkey::Pubkey;
use solana_program::sysvar::instructions::{
    construct_instructions_data, store_current_index, BorrowedInstruction,
};

fn key() -> [u8; 32] {
    Pubkey::new_unique().to_bytes()
}

fn config_with_authority(authority: [u8; 32]) -> Config {
    Config {
        authority,
        service_fee_bps: 500,
        default_active_duration_secs: 7_200,
        default_upload_duration_secs: 3_600,
        created_at_unix: 0,
        last_updated_unix: 0,
        next_giveaway_id: 2,
        reserved: [0; 64],
    }
}

fn upload_phase_giveaway() -> Giveaway {
    Giveaway {
        id: 1,
        config: [0; 32],
        creator: [0; 32],
        vault: [0; 32],
        status: GiveawayStatus::Active,
        total_payout_lamports: 1_000_000,
        number_of_winners: 1,
        service_fee_bps: 500,
        created_at_unix: 0,
        active_start_unix: 100,
        active_deadline_unix: 3_700,
        upload_start_unix: 3_700,
        upload_deadline_unix: 7_300,
        settlement_start_unix: 7_300,
        participants_count: 1,
        attested_count: 0,
        provider_uploaded_count: 0,
        poc_aggregate_hash: [0; 32],
        uploads_complete: false,
        disqualified_count: 0,
        winners_computed: false,
        winners_locked: false,
        recompute_version: 0,
        settled: false,
        remediation_start_unix: 0,
        remediation_deadline_unix: 0,
        account_version: 4,
        reserved: [0; 110],
    }
}

fn entry(giveaway: [u8; 32], wallet: [u8; 32], commitment_hash: [u8; 32]) -> Participant {
    Participant {
        giveaway,
        wallet,
        commitment_hash,
        proof_text: String::new(),
        attested_uploaded: false,
        attested_at_unix: 0,
        reveal_included: false,
        disqualified: false,
        disqualification_reason: 0,
        disqualified_at_unix: 0,
        created_at_unix: 200,
        last_updated_unix: 200,
        reserved: [0; 64],
    }
}

/// Ed25519 verification data with one signature whose key and message sit
/// in the instruction itself (the signature bytes are left zero).
fn ed25519_data(signer: &[u8; 32], message: &[u8]) -> Vec<u8> {
    let pubkey_offset: u16 = 16;
    let signature_offset: u16 = 48;
    let message_offset: u16 = 112;
    let mut data = vec![1u8, 0];
    for field in [
        signature_offset,
        u16::MAX,
        pubkey_offset,
        u16::MAX,
        message_offset,
        message.len() as u16,
        u16::MAX,
    ] {
        data.extend_from_slice(&field.to_le_bytes());
    }
    data.extend_from_slice(signer);
    data.extend_from_slice(&[0u8; 64]);
    data.extend_from_slice(message);
    data
}

/// Instructions sysvar data for a transaction whose first instruction is
/// `first` and whose executing (second) instruction calls the program.
fn sysvar_data(first_program: &Pubkey, first_data: &[u8]) -> Vec<u8> {
    let program = Pubkey::new_from_array(program_id());
    let instructions = [
        BorrowedInstruction { program_id: first_program, accounts: vec![], data: first_data },
        BorrowedInstruction { program_id: &program, accounts: vec![], data: &[] },
    ];
    let mut data = construct_instructions_data(&instructions);
    store_current_index(&mut data, 1);
    data
}

fn receipt_message(giveaway: &[u8; 32], wallet: &[u8; 32], commitment_hash: &[u8; 32]) -> Vec<u8> {
    let mut message = giveaway_attestation_domain_v1();
    message.extend_from_slice(giveaway);
    message.extend_from_slice(wallet);
    message.extend_from_slice(commitment_hash);
    message
}

fn attestation(authority: [u8; 32], data: Vec<u8>) -> AttestUploaded {
    let giveaway_key = key();
    let wallet = key();
    AttestUploaded {
        config: config_with_authority(authority),
        giveaway_key,
        giveaway: upload_phase_giveaway(),
        participant_account_key: key(),
        participant_account: entry(giveaway_key, wallet, [7u8; 32]),
        participant: wallet,
        instructions_sysvar: solana_program::sysvar::instructions::id().to_bytes(),
        instructions_sysvar_data: data,
    }
}

#[test]
fn program_id_is_the_declared_address() {
    let declared = Pubkey::from_str("DUMRJ15A2ivmUNDK6EX7wfRQ1cYw4vw5ewSyT8xSJuRG").unwrap();
    assert_eq!(program_id(), declared.to_bytes());
}

#[test]
fn reveal_digest_hashes_domain_wallet_length_and_plaintext() {
    let wallet = key();
    let plaintext = b"fortune\x1fabc123";
    let mut message = giveaway_reveal_domain_v1();
    message.extend_from_slice(&wallet);
    message.extend_from_slice(&(plaintext.len() as u32).to_le_bytes());
    message.extend_from_slice(plaintext);
    let expected: [u8; 32] = Sha256::digest(&message).into();
    assert_eq!(compute_reveal_digest(&wallet, plaintext), expected);
}

#[test]
fn participant_pda_matches_the_runtime_search() {
    let program = program_id();
    let giveaway = key();
    let wallet = key();
    let (expected, bump) = Pubkey::find_program_address(
        &[b"participant", giveaway.as_ref(), wallet.as_ref()],
        &Pubkey::new_from_array(program),
    );
    assert_eq!(derive_participant_pda(&program, &giveaway, &wallet), Some((expected.to_bytes(), bump)));
}

#[test]
fn reveal_data_splits_at_the_separator() {
    let (words, salt) = parse_reveal_data(b"fortune\x1fabc123").unwrap();
    assert_eq!(words, "fortune");
    assert_eq!(salt, b"abc123".to_vec());
    assert_eq!(parse_reveal_data(b"\xff\xfe\x1fabc").unwrap_err(), GiveawayError::InvalidReveal);
    assert_eq!(parse_reveal_data(b"no separator").unwrap_err(), GiveawayError::InvalidReveal);
}

#[test]
fn participation_event_renders_keys_in_base58_and_commitment_in_hex() {
    let program = program_id();
    let giveaway_key = key();
    let wallet = key();
    let (entry_key, _) = derive_participant_pda(&program, &giveaway_key, &wallet).unwrap();
    let mut giveaway = upload_phase_giveaway();
    giveaway.participants_count = 0;
    let mut ctx = Participate {
        config: config_with_authority(key()),
        giveaway_key,
        giveaway,
        participant_account_key: entry_key,
        participant_account: entry([0; 32], [0; 32], [0; 32]),
        participant: wallet,
    };
    let commitment = [0xabu8; 32];
    let events = participate::process(&mut ctx, commitment, "proof".to_string(), 200).unwrap();
    match &events[0] {
        GiveawayEvent::ParticipationSubmitted {
            giveaway,
            participant,
            participant_account,
            commitment_hash,
            is_update,
            ..
        } => {
            assert_eq!(*giveaway, Pubkey::new_from_array(giveaway_key).to_string());
            assert_eq!(*participant, Pubkey::new_from_array(wallet).to_string());
            assert_eq!(*participant_account, Pubkey::new_from_array(entry_key).to_string());
            assert_eq!(*commitment_hash, hex::encode(commitment));
            assert_eq!(*commitment_hash, "ab".repeat(32));
            assert!(!is_update);
        }
        other => panic!("unexpected event {:?}", other),
    }
    assert_eq!(ctx.giveaway.participants_count, 1);
}

#[test]
fn ed25519_instruction_parses_its_signer_and_message() {
    let signer = key();
    let data = ed25519_data(&signer, b"hello");
    assert_eq!(parse_ed25519_ix(&data), Some((signer, b"hello".to_vec())));
    let mut referenced = data.clone();
    referenced[4] = 0;
    referenced[5] = 0;
    assert_eq!(parse_ed25519_ix(&referenced), None);
    assert_eq!(parse_ed25519_ix(&data[..20]), None);
}

#[test]
fn receipt_must_come_from_the_ed25519_program() {
    let signer = key();
    let data = ed25519_data(&signer, b"msg");
    let ed25519 = solana_program::ed25519_program::id().to_bytes();
    assert!(is_provider_receipt(&ed25519, &data, &signer, b"msg"));
    assert!(!is_provider_receipt(&program_id(), &data, &signer, b"msg"));
    assert!(!is_provider_receipt(&ed25519, &data, &key(), b"msg"));
    assert!(!is_provider_receipt(&ed25519, &data, &signer, b"other"));
}

#[test]
fn receipt_attestation_accepts_a_signed_provider_receipt() {
    let authority = key();
    let mut ctx = attestation(authority, vec![0, 0]);
    let message = receipt_message(&ctx.giveaway_key, &ctx.participant, &[7u8; 32]);
    let ed25519 = solana_program::ed25519_program::id();
    ctx.instructions_sysvar_data = sysvar_data(&ed25519, &ed25519_data(&authority, &message));
    let events = attest_uploaded::process(&mut ctx, 4_000).unwrap();
    assert!(matches!(events[0], GiveawayEvent::AttestationSubmitted { giveaway_id: 1, .. }));
    assert!(ctx.participant_account.attested_uploaded);
    assert_eq!(ctx.participant_account.attested_at_unix, 4_000);
    assert_eq!(ctx.giveaway.attested_count, 1);
}

#[test]
fn receipt_attestation_rejects_a_receipt_by_another_signer() {
    let authority = key();
    let mut ctx = attestation(authority, vec![0, 0]);
    let message = receipt_message(&ctx.giveaway_key, &ctx.participant, &[7u8; 32]);
    let ed25519 = solana_program::ed25519_program::id();
    ctx.instructions_sysvar_data = sysvar_data(&ed25519, &ed25519_data(&key(), &message));
    assert_eq!(
        attest_uploaded::process(&mut ctx, 4_000).unwrap_err(),
        GiveawayError::InvalidAttestation
    );
    assert_eq!(ctx.giveaway.attested_count, 0);
}

#[test]
fn receipt_attestation_rejects_a_receipt_outside_the_ed25519_program() {
    let authority = key();
    let mut ctx = attestation(authority, vec![0, 0]);
    let message = receipt_message(&ctx.giveaway_key, &ctx.participant, &[7u8; 32]);
    let other = Pubkey::new_unique();
    ctx.instructions_sysvar_data = sysvar_data(&other, &ed25519_data(&authority, &message));
    assert_eq!(
        attest_uploaded::process(&mut ctx, 4_000).unwrap_err(),
        GiveawayError::InvalidAttestation
    );
}

#[test]
fn receipt_attestation_checks_the_window_and_the_sysvar() {
    let authority = key();
    let mut early = attestation(authority, vec![0, 0]);
    assert_eq!(
        attest_uploaded::process(&mut early, 3_000).unwrap_err(),
        GiveawayError::UploadWindowClosed
    );
    let mut wrong_sysvar = attestation(authority, vec![0, 0]);
    wrong_sysvar.instructions_sysvar = key();
    assert_eq!(
        attest_uploaded::process(&mut wrong_sysvar, 4_000).unwrap_err(),
        GiveawayError::InvalidAccount
    );
}

#[test]
fn outside_program_ids_are_the_stated_bytes() {
    let ed25519: [u8; 32] = [
        3, 125, 70, 214, 124, 147, 251, 190, 18, 249, 66, 143, 131, 141, 64, 255, 5, 112, 116, 73,
        39, 244, 138, 100, 252, 202, 112, 68, 128, 0, 0, 0,
    ];
    let instructions: [u8; 32] = [
        6, 167, 213, 23, 24, 123, 209, 102, 53, 218, 212, 4, 85, 253, 194, 192, 193, 36, 198, 143,
        33, 86, 117, 165, 219, 186, 203, 95, 8, 0, 0, 0,
    ];
    assert_eq!(solana_program::ed25519_program::id().to_bytes(), ed25519);
    assert_eq!(solana_program::sysvar::instructions::id().to_bytes(), instructions);
}
