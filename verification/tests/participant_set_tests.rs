use giveaways::address::program_id;
use giveaways::state::participant::Participant;
use giveaways::utils::account::{AccountSnapshot, ParticipantAccountInfo};
use giveaways::utils::participant_set::collect_canonical_eligible_wallets;
use solana_program::pubkey::Pubkey;

fn participant_for(giveaway: [u8; 32], wallet: [u8; 32]) -> Participant {
    Participant {
        giveaway,
        wallet,
        commitment_hash: [7u8; 32],
        proof_text: "proof".to_string(),
        attested_uploaded: true,
        attested_at_unix: 10,
        reveal_included: true,
        disqualified: false,
        disqualification_reason: 0,
        disqualified_at_unix: 0,
        created_at_unix: 1,
        last_updated_unix: 10,
        reserved: [0; 64],
    }
}

fn participant_pda(program: &[u8; 32], giveaway: &[u8; 32], wallet: &[u8; 32]) -> [u8; 32] {
    let (key, _) = Pubkey::find_program_address(
        &[b"participant", giveaway.as_ref(), wallet.as_ref()],
        &Pubkey::new_from_array(*program),
    );
    key.to_bytes()
}

fn account_info(
    key: [u8; 32],
    owner: [u8; 32],
    participant: Participant,
) -> ParticipantAccountInfo {
    ParticipantAccountInfo {
        account: AccountSnapshot {
            key,
            owner,
            lamports: 0,
            is_writable: true,
            is_signer: false,
            data_is_empty: false,
        },
        participant: Some(participant),
    }
}

#[test]
fn accepts_distinct_owned_participant_pdas() {
    let program = program_id();
    let giveaway = Pubkey::new_unique().to_bytes();
    let wallet_a = Pubkey::new_unique().to_bytes();
    let wallet_b = Pubkey::new_unique().to_bytes();
    let participant_a_key = participant_pda(&program, &giveaway, &wallet_a);
    let participant_b_key = participant_pda(&program, &giveaway, &wallet_b);
    let account_a = account_info(participant_a_key, program, participant_for(giveaway, wallet_a));
    let account_b = account_info(participant_b_key, program, participant_for(giveaway, wallet_b));

    let wallets =
        collect_canonical_eligible_wallets(&program, giveaway, 2, &[account_a, account_b])
            .unwrap();

    assert_eq!(wallets.len(), 2);
    assert!(wallets.contains(&wallet_a));
    assert!(wallets.contains(&wallet_b));
}

#[test]
fn rejects_duplicate_participant_accounts() {
    let program = program_id();
    let giveaway = Pubkey::new_unique().to_bytes();
    let wallet = Pubkey::new_unique().to_bytes();
    let participant_key = participant_pda(&program, &giveaway, &wallet);
    let account = account_info(participant_key, program, participant_for(giveaway, wallet));
    let same_account = account_info(participant_key, program, participant_for(giveaway, wallet));

    assert!(
        collect_canonical_eligible_wallets(&program, giveaway, 2, &[same_account, account])
            .is_err()
    );
}

#[test]
fn rejects_wrong_owner_even_if_data_deserializes() {
    let program = program_id();
    let wrong_owner = Pubkey::new_unique().to_bytes();
    let giveaway = Pubkey::new_unique().to_bytes();
    let wallet = Pubkey::new_unique().to_bytes();
    let participant_key = participant_pda(&program, &giveaway, &wallet);
    let account = account_info(participant_key, wrong_owner, participant_for(giveaway, wallet));

    assert!(collect_canonical_eligible_wallets(&program, giveaway, 1, &[account]).is_err());
}

#[test]
fn rejects_valid_data_at_wrong_pda() {
    let program = program_id();
    let giveaway = Pubkey::new_unique().to_bytes();
    let wallet = Pubkey::new_unique().to_bytes();
    let wrong_key = Pubkey::new_unique().to_bytes();
    let account = account_info(wrong_key, program, participant_for(giveaway, wallet));

    assert!(collect_canonical_eligible_wallets(&program, giveaway, 1, &[account]).is_err());
}
