//! Program-derived addresses of the giveaways accounts.
use vstd::prelude::*;
use vstd::bytes::{spec_u64_to_le_bytes, u64_to_le_bytes};
use crate::address::{spec_try_find_program_address, try_find_program_address};
use crate::bytes::{pubkey_eq, slice_to_vec_bytes, Pubkey};
use crate::constants::{
    config_seed, giveaway_seed, participant_seed, spec_config_seed, spec_giveaway_seed,
    spec_participant_seed, spec_vault_seed, spec_winners_ledger_seed, vault_seed,
    winners_ledger_seed,
};
use crate::error::GiveawayError;
use crate::utils::account::AccountSnapshot;

verus! {

/// `key` is the program-derived address of `seeds` under `program_id`.
pub open spec fn spec_is_pda(key: Seq<u8>, seeds: Seq<Seq<u8>>, program_id: Seq<u8>) -> bool {
    match spec_try_find_program_address(seeds, program_id) {
        Some(found) => found.0 == key,
        None => false,
    }
}

/// The address and bump of a search outcome, as byte views.
pub open spec fn spec_found_view(found: Option<(Pubkey, u8)>) -> Option<(Seq<u8>, u8)> {
    match found {
        Some(f) => Some((f.0@, f.1)),
        None => None,
    }
}

/// The byte views of a list of seeds.
pub open spec fn seed_views(seeds: Seq<Vec<u8>>) -> Seq<Seq<u8>> {
    Seq::new(seeds.len(), |i: int| seeds[i]@)
}

fn find_pda(seeds: &Vec<Vec<u8>>, program_id: &Pubkey) -> (found: Option<(Pubkey, u8)>)
    ensures
        spec_found_view(found) == spec_try_find_program_address(seed_views(seeds@), program_id@),
{
    assert forall|i: int| 0 <= i < seeds@.len() implies #[trigger] seeds@[i].deep_view()
        =~= seeds@[i]@ by {}
    assert(seeds.deep_view() =~= seed_views(seeds@));
    try_find_program_address(seeds, program_id)
}

/// `["config"]`
pub open spec fn spec_config_seeds() -> Seq<Seq<u8>> {
    seq![spec_config_seed()]
}

/// `["giveaway", config, le64(giveaway_id)]`
pub open spec fn spec_giveaway_seeds(config: Seq<u8>, giveaway_id: u64) -> Seq<Seq<u8>> {
    seq![spec_giveaway_seed(), config, spec_u64_to_le_bytes(giveaway_id)]
}

/// `["participant", giveaway, wallet]`
pub open spec fn spec_participant_seeds(giveaway: Seq<u8>, wallet: Seq<u8>) -> Seq<Seq<u8>> {
    seq![spec_participant_seed(), giveaway, wallet]
}

/// `["vault", giveaway]`
pub open spec fn spec_vault_seeds(giveaway: Seq<u8>) -> Seq<Seq<u8>> {
    seq![spec_vault_seed(), giveaway]
}

/// `["winners_ledger", giveaway]`
pub open spec fn spec_winners_ledger_seeds(giveaway: Seq<u8>) -> Seq<Seq<u8>> {
    seq![spec_winners_ledger_seed(), giveaway]
}

/// The participant seeds as byte vectors.
pub fn participant_seeds(giveaway: &Pubkey, wallet: &Pubkey) -> (seeds: Vec<Vec<u8>>)
    ensures
        seed_views(seeds@) == spec_participant_seeds(giveaway@, wallet@),
{
    let seeds = vec![
        participant_seed(),
        slice_to_vec_bytes(giveaway.as_slice()),
        slice_to_vec_bytes(wallet.as_slice()),
    ];
    assert(seed_views(seeds@) =~= spec_participant_seeds(giveaway@, wallet@));
    seeds
}

/// Derives the config PDA.
pub fn derive_config_pda(program_id: &Pubkey) -> (found: Option<(Pubkey, u8)>)
    ensures
        spec_found_view(found) == spec_try_find_program_address(spec_config_seeds(), program_id@),
{
    let seeds = vec![config_seed()];
    assert(seed_views(seeds@) =~= spec_config_seeds());
    find_pda(&seeds, program_id)
}

/// Derives a giveaway PDA.
pub fn derive_giveaway_pda(program_id: &Pubkey, config: &Pubkey, giveaway_id: u64) -> (found: Option<(Pubkey, u8)>)
    ensures
        spec_found_view(found) == spec_try_find_program_address(
            spec_giveaway_seeds(config@, giveaway_id),
            program_id@,
        ),
{
    let seeds = vec![
        giveaway_seed(),
        slice_to_vec_bytes(config.as_slice()),
        u64_to_le_bytes(giveaway_id),
    ];
    assert(seed_views(seeds@) =~= spec_giveaway_seeds(config@, giveaway_id));
    find_pda(&seeds, program_id)
}

/// Derives a participant PDA.
pub fn derive_participant_pda(program_id: &Pubkey, giveaway: &Pubkey, wallet: &Pubkey) -> (found: Option<(Pubkey, u8)>)
    ensures
        spec_found_view(found) == spec_try_find_program_address(
            spec_participant_seeds(giveaway@, wallet@),
            program_id@,
        ),
{
    let seeds = participant_seeds(giveaway, wallet);
    find_pda(&seeds, program_id)
}

/// Derives a vault PDA.
pub fn derive_vault_pda(program_id: &Pubkey, giveaway: &Pubkey) -> (found: Option<(Pubkey, u8)>)
    ensures
        spec_found_view(found) == spec_try_find_program_address(spec_vault_seeds(giveaway@), program_id@),
{
    let seeds = vec![vault_seed(), slice_to_vec_bytes(giveaway.as_slice())];
    assert(seed_views(seeds@) =~= spec_vault_seeds(giveaway@));
    find_pda(&seeds, program_id)
}

/// Derives a winners ledger PDA.
pub fn derive_winners_ledger_pda(program_id: &Pubkey, giveaway: &Pubkey) -> (found: Option<(Pubkey, u8)>)
    ensures
        spec_found_view(found) == spec_try_find_program_address(
            spec_winners_ledger_seeds(giveaway@),
            program_id@,
        ),
{
    let seeds = vec![winners_ledger_seed(), slice_to_vec_bytes(giveaway.as_slice())];
    assert(seed_views(seeds@) =~= spec_winners_ledger_seeds(giveaway@));
    find_pda(&seeds, program_id)
}

/// Requires the account to sit at the PDA of `seeds` and be owned by the
/// program.
pub fn assert_pda_owned(program_id: &Pubkey, account: &AccountSnapshot, seeds: &Vec<Vec<u8>>) -> (result:
    Result<(), GiveawayError>)
    ensures
        result == if !spec_is_pda(account.key@, seed_views(seeds@), program_id@) {
            Err::<(), _>(GiveawayError::InvalidAccount)
        } else if account.owner@ != program_id@ {
            Err::<(), _>(GiveawayError::InvalidProgram)
        } else {
            Ok(())
        },
{
    let expected_pda = match find_pda(seeds, program_id) {
        Some(found) => found.0,
        None => {
            return Err(GiveawayError::InvalidAccount);
        },
    };
    if !pubkey_eq(&account.key, &expected_pda) {
        return Err(GiveawayError::InvalidAccount);
    }
    if !pubkey_eq(&account.owner, program_id) {
        return Err(GiveawayError::InvalidProgram);
    }
    Ok(())
}

/// Requires the account's key to be `expected`.
pub fn require_key_match(account: &AccountSnapshot, expected: &Pubkey) -> (result: Result<
    (),
    GiveawayError,
>)
    ensures
        result == if account.key@ == expected@ {
            Ok(())
        } else {
            Err::<(), _>(GiveawayError::InvalidAccount)
        },
{
    if !pubkey_eq(&account.key, expected) {
        return Err(GiveawayError::InvalidAccount);
    }
    Ok(())
}

} // verus!
