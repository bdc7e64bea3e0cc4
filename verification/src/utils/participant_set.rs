//! Validation of a caller-supplied participant account list and extraction
//! of the sorted eligible wallet pool.
use vstd::prelude::*;
use crate::bytes::{pubkey_eq, sort_by_bytes, sorted_by_bytes, Pubkey};
use crate::error::GiveawayError;
use crate::utils::account::ParticipantAccountInfo;
use crate::utils::pda::{derive_participant_pda, spec_is_pda, spec_participant_seeds};

verus! {

/// The first check that account `i` of the list fails, if any: owner,
/// repeated account, undecodable data, foreign giveaway, non-canonical PDA,
/// repeated wallet.
pub open spec fn spec_account_error(
    program_id: Seq<u8>,
    giveaway: Seq<u8>,
    accounts: Seq<ParticipantAccountInfo>,
    i: int,
) -> Option<GiveawayError> {
    let a = accounts[i];
    if a.account.owner@ != program_id {
        Some(GiveawayError::InvalidProgram)
    } else if exists|j: int| 0 <= j < i && (#[trigger] accounts[j]).account.key@ == a.account.key@ {
        Some(GiveawayError::InvalidAccount)
    } else if a.participant is None {
        Some(GiveawayError::AccountNotInitialized)
    } else if a.participant->0.giveaway@ != giveaway {
        Some(GiveawayError::InvalidAccount)
    } else if !spec_is_pda(
        a.account.key@,
        spec_participant_seeds(giveaway, a.participant->0.wallet@),
        program_id,
    ) {
        Some(GiveawayError::InvalidAccount)
    } else if exists|j: int| 0 <= j < i && holds_wallet(#[trigger] accounts[j], a.participant->0.wallet@) {
        Some(GiveawayError::InvalidAccount)
    } else {
        None
    }
}

/// The account holds a decoded entry with this wallet.
pub open spec fn holds_wallet(a: ParticipantAccountInfo, wallet: Seq<u8>) -> bool {
    a.participant matches Some(q) && q.wallet@ == wallet
}

/// Every account before `n` passes its checks.
pub open spec fn spec_accounts_ok_upto(
    program_id: Seq<u8>,
    giveaway: Seq<u8>,
    accounts: Seq<ParticipantAccountInfo>,
    n: int,
) -> bool {
    forall|j: int| 0 <= j < n ==> spec_account_error(program_id, giveaway, accounts, j) is None
}

/// How many of the accounts hold an included reveal.
pub open spec fn spec_included_count(accounts: Seq<ParticipantAccountInfo>) -> nat
    decreases accounts.len(),
{
    if accounts.len() == 0 {
        0
    } else {
        spec_included_count(accounts.drop_last()) + if accounts.last().participant matches Some(p)
            && p.reveal_included {
            1nat
        } else {
            0nat
        }
    }
}

/// The wallets of the eligible entries, in list order.
pub open spec fn spec_eligible_wallets(accounts: Seq<ParticipantAccountInfo>) -> Seq<[u8; 32]>
    decreases accounts.len(),
{
    if accounts.len() == 0 {
        Seq::empty()
    } else {
        let rest = spec_eligible_wallets(accounts.drop_last());
        if accounts.last().participant matches Some(p) && !p.disqualified && p.reveal_included {
            rest.push(accounts.last().participant->0.wallet)
        } else {
            rest
        }
    }
}

fn contains_pubkey(items: &Vec<Pubkey>, key: &Pubkey) -> (found: bool)
    ensures
        found == exists|j: int| 0 <= j < items@.len() && (#[trigger] items@[j])@ == key@,
{
    let mut k: usize = 0;
    while k < items.len()
        invariant
            k <= items@.len(),
            forall|j: int| 0 <= j < k ==> (#[trigger] items@[j])@ != key@,
        decreases items@.len() - k,
    {
        if pubkey_eq(&items[k], key) {
            return true;
        }
        k = k + 1;
    }
    false
}

/// Loads the canonical reveal-included participant set: every account must
/// be program-owned, listed once, a decodable entry of this giveaway at its
/// canonical PDA, with a wallet not seen before; the number of included
/// reveals must match `expected_included_reveals`. Returns the eligible
/// wallets sorted by bytes.
pub fn collect_canonical_eligible_wallets(
    program_id: &Pubkey,
    giveaway: Pubkey,
    expected_included_reveals: u64,
    remaining_accounts: &[ParticipantAccountInfo],
) -> (result: Result<Vec<Pubkey>, GiveawayError>)
    ensures
        forall|i: int|
            0 <= i < remaining_accounts@.len() && spec_accounts_ok_upto(
                program_id@,
                giveaway@,
                remaining_accounts@,
                i,
            ) && #[trigger] spec_account_error(program_id@, giveaway@, remaining_accounts@, i) is Some
                ==> result == Err::<Vec<Pubkey>, _>(
                spec_account_error(program_id@, giveaway@, remaining_accounts@, i)->0,
            ),
        spec_accounts_ok_upto(
            program_id@,
            giveaway@,
            remaining_accounts@,
            remaining_accounts@.len() as int,
        ) ==> if spec_included_count(remaining_accounts@) != expected_included_reveals {
            result == Err::<Vec<Pubkey>, _>(GiveawayError::MissingAttestedParticipants)
        } else {
            result matches Ok(wallets) && sorted_by_bytes(wallets@) && wallets@.to_multiset()
                == spec_eligible_wallets(remaining_accounts@).to_multiset()
        },
{
    let mut seen_accounts: Vec<Pubkey> = Vec::new();
    let mut seen_wallets: Vec<Pubkey> = Vec::new();
    let mut included_reveals: u64 = 0;
    let mut eligible_wallets: Vec<Pubkey> = Vec::new();
    let ghost accounts = remaining_accounts@;
    let mut k: usize = 0;
    while k < remaining_accounts.len()
        invariant
            k <= accounts.len(),
            accounts == remaining_accounts@,
            spec_accounts_ok_upto(program_id@, giveaway@, accounts, k as int),
            seen_accounts@.len() == k,
            seen_wallets@.len() == k,
            forall|j: int| 0 <= j < k ==> (#[trigger] seen_accounts@[j])@ == accounts[j].account.key@,
            forall|j: int| 0 <= j < k ==> holds_wallet(accounts[j], (#[trigger] seen_wallets@[j])@),
            included_reveals == spec_included_count(accounts.subrange(0, k as int)),
            included_reveals <= k,
            eligible_wallets@ == spec_eligible_wallets(accounts.subrange(0, k as int)),
        decreases accounts.len() - k,
    {
        let info = &remaining_accounts[k];
        let ghost sub = accounts.subrange(0, k + 1);
        assert(sub.drop_last() =~= accounts.subrange(0, k as int));
        assert(sub.last() == accounts[k as int]);
        if !pubkey_eq(&info.account.owner, program_id) {
            return Err(GiveawayError::InvalidProgram);
        }
        if contains_pubkey(&seen_accounts, &info.account.key) {
            assert(exists|j: int| 0 <= j < k && (#[trigger] accounts[j]).account.key@ == info.account.key@);
            return Err(GiveawayError::InvalidAccount);
        }
        assert(!exists|j: int| 0 <= j < k && (#[trigger] accounts[j]).account.key@ == info.account.key@) by {
            if exists|j: int| 0 <= j < k && (#[trigger] accounts[j]).account.key@ == info.account.key@ {
                let j = choose|j: int| 0 <= j < k && (#[trigger] accounts[j]).account.key@ == info.account.key@;
                assert(seen_accounts@[j]@ == info.account.key@);
            }
        }
        let participant = match &info.participant {
            Some(p) => p,
            None => {
                return Err(GiveawayError::AccountNotInitialized);
            },
        };
        assert(accounts[k as int].participant is Some && accounts[k as int].participant->0 == *participant);
        if !pubkey_eq(&participant.giveaway, &giveaway) {
            return Err(GiveawayError::InvalidAccount);
        }
        let expected_participant_pda = match derive_participant_pda(
            program_id,
            &giveaway,
            &participant.wallet,
        ) {
            Some(found) => found.0,
            None => {
                return Err(GiveawayError::InvalidAccount);
            },
        };
        if !pubkey_eq(&info.account.key, &expected_participant_pda) {
            return Err(GiveawayError::InvalidAccount);
        }
        if contains_pubkey(&seen_wallets, &participant.wallet) {
            let ghost j = choose|j: int|
                0 <= j < seen_wallets@.len() && (#[trigger] seen_wallets@[j])@ == participant.wallet@;
            assert(holds_wallet(accounts[j], seen_wallets@[j]@));
            return Err(GiveawayError::InvalidAccount);
        }
        assert(!exists|j: int| 0 <= j < k && holds_wallet(#[trigger] accounts[j], participant.wallet@)) by {
            if exists|j: int| 0 <= j < k && holds_wallet(#[trigger] accounts[j], participant.wallet@) {
                let j = choose|j: int| 0 <= j < k && holds_wallet(#[trigger] accounts[j], participant.wallet@);
                assert(seen_wallets@[j]@ == participant.wallet@);
            }
        }
        assert(spec_account_error(program_id@, giveaway@, accounts, k as int) is None);
        let ghost old_seen_wallets = seen_wallets@;
        let ghost old_seen_accounts = seen_accounts@;
        seen_accounts.push(info.account.key);
        seen_wallets.push(participant.wallet);
        assert forall|j: int| 0 <= j < k + 1 implies holds_wallet(
            accounts[j],
            (#[trigger] seen_wallets@[j])@,
        ) by {
            if j < k {
                assert(seen_wallets@[j] == old_seen_wallets[j]);
            }
        }
        assert forall|j: int| 0 <= j < k + 1 implies (#[trigger] seen_accounts@[j])@
            == accounts[j].account.key@ by {
            if j < k {
                assert(seen_accounts@[j] == old_seen_accounts[j]);
            }
        }
        if participant.reveal_included {
            included_reveals = included_reveals + 1;
        }
        if participant.is_eligible() {
            eligible_wallets.push(participant.wallet);
        }
        k = k + 1;
    }
    assert(accounts.subrange(0, accounts.len() as int) =~= accounts);
    if included_reveals != expected_included_reveals {
        return Err(GiveawayError::MissingAttestedParticipants);
    }
    Ok(sort_by_bytes(eligible_wallets))
}

} // verus!
