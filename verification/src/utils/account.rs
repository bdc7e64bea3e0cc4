//! What the program reads of a Solana account, and lamport transfers between
//! two account balances.
use vstd::prelude::*;
use crate::bytes::{pubkey_eq, Pubkey};
use crate::error::GiveawayError;
use crate::state::participant::Participant;

verus! {

/// The parts of an account the program logic reads.
#[derive(Clone, Copy)]
pub struct AccountSnapshot {
    pub key: Pubkey,
    pub owner: Pubkey,
    pub lamports: u64,
    pub is_writable: bool,
    pub is_signer: bool,
    pub data_is_empty: bool,
}

/// An account passed as a participant entry, with its data decoded when it
/// holds a participant (`None` when it does not deserialize).
pub struct ParticipantAccountInfo {
    pub account: AccountSnapshot,
    pub participant: Option<Participant>,
}

/// A copy of a list of account models, to work on while the given list
/// stays as it is.
pub(crate) fn copy_accounts(accounts: &Vec<ParticipantAccountInfo>) -> (copy: Vec<
    ParticipantAccountInfo,
>)
    ensures
        copy@ == accounts@,
{
    let mut copy: Vec<ParticipantAccountInfo> = Vec::new();
    let mut i: usize = 0;
    while i < accounts.len()
        invariant
            i <= accounts@.len(),
            copy@ == accounts@.subrange(0, i as int),
        decreases accounts@.len() - i,
    {
        let info = &accounts[i];
        let participant = match &info.participant {
            Some(p) => Some(p.duplicate()),
            None => None,
        };
        copy.push(ParticipantAccountInfo { account: info.account, participant });
        i = i + 1;
    }
    assert(copy@ =~= accounts@);
    copy
}

/// Moves `amount` lamports from one account balance to another. Nothing
/// moves when the source holds less than `amount` or the credit would
/// overflow. Two snapshots of one address share their balance: a move from
/// an account to itself leaves both snapshots at the source's balance.
pub fn transfer_lamports(from: &mut AccountSnapshot, to: &mut AccountSnapshot, amount: u64) -> (result:
    Result<(), GiveawayError>)
    ensures
        old(from).lamports < amount ==> result == Err::<(), _>(GiveawayError::InsufficientFunds)
            && *final(from) == *old(from) && *final(to) == *old(to),
        old(from).lamports >= amount && old(from).key@ == old(to).key@ ==> result is Ok
            && *final(from) == *old(from) && *final(to) == (AccountSnapshot {
            lamports: old(from).lamports,
            ..*old(to)
        }),
        old(from).lamports >= amount && old(from).key@ != old(to).key@ && old(to).lamports + amount
            > u64::MAX ==> result == Err::<(), _>(GiveawayError::MathOverflow) && *final(from)
            == *old(from) && *final(to) == *old(to),
        old(from).lamports >= amount && old(from).key@ != old(to).key@ && old(to).lamports + amount
            <= u64::MAX ==> result is Ok && *final(from) == (AccountSnapshot {
            lamports: (old(from).lamports - amount) as u64,
            ..*old(from)
        }) && *final(to) == (AccountSnapshot {
            lamports: (old(to).lamports + amount) as u64,
            ..*old(to)
        }),
        result is Ok && old(from).key@ != old(to).key@ ==> final(from).lamports + final(to).lamports
            == old(from).lamports + old(to).lamports,
{
    if !(from.lamports >= amount) {
        return Err(GiveawayError::InsufficientFunds);
    }
    if pubkey_eq(&from.key, &to.key) {
        to.lamports = from.lamports;
        return Ok(());
    }
    let credited = match to.lamports.checked_add(amount) {
        Some(total) => total,
        None => {
            return Err(GiveawayError::MathOverflow);
        },
    };
    from.lamports = from.lamports - amount;
    to.lamports = credited;
    Ok(())
}

/// The accounts with every snapshot at `key` holding entry `q`: snapshots
/// of one address share their data.
pub open spec fn spec_store_entry(
    accounts: Seq<ParticipantAccountInfo>,
    key: Seq<u8>,
    q: Participant,
) -> Seq<ParticipantAccountInfo> {
    accounts.map_values(
        |info: ParticipantAccountInfo|
            if info.account.key@ == key {
                ParticipantAccountInfo { account: info.account, participant: Some(q) }
            } else {
                info
            },
    )
}

/// Writes entry `q` to every snapshot of the account at `key`.
pub fn store_entry(accounts: &mut Vec<ParticipantAccountInfo>, key: &Pubkey, q: &Participant)
    ensures
        final(accounts)@ == spec_store_entry(old(accounts)@, key@, *q),
{
    let ghost start = old(accounts)@;
    let ghost target = spec_store_entry(start, key@, *q);
    let mut j: usize = 0;
    while j < accounts.len()
        invariant
            j <= accounts@.len(),
            start == old(accounts)@,
            target == spec_store_entry(start, key@, *q),
            accounts@.len() == start.len(),
            target.len() == start.len(),
            forall|i: int| 0 <= i < j ==> accounts@[i] == target[i],
            forall|i: int| j <= i < start.len() ==> accounts@[i] == start[i],
        decreases start.len() - j,
    {
        let ghost info = start[j as int];
        assert(target[j as int] == if info.account.key@ == key@ {
            ParticipantAccountInfo { account: info.account, participant: Some(*q) }
        } else {
            info
        });
        if pubkey_eq(&accounts[j].account.key, key) {
            let account = accounts[j].account;
            accounts.set(j, ParticipantAccountInfo { account, participant: Some(q.duplicate()) });
        }
        j = j + 1;
    }
    assert(accounts@ =~= target);
}

/// The position of the first account at `key` from position `i` on.
pub open spec fn spec_first_account_from(
    accounts: Seq<ParticipantAccountInfo>,
    key: Seq<u8>,
    i: int,
) -> Option<int>
    decreases accounts.len() - i,
{
    if i < 0 || i >= accounts.len() {
        None
    } else if accounts[i].account.key@ == key {
        Some(i)
    } else {
        spec_first_account_from(accounts, key, i + 1)
    }
}

/// The position of the first account at `key`.
pub open spec fn spec_first_account(accounts: Seq<ParticipantAccountInfo>, key: Seq<u8>) -> Option<
    int,
> {
    spec_first_account_from(accounts, key, 0)
}

/// Finds the first account at `key`.
pub fn find_account(accounts: &Vec<ParticipantAccountInfo>, key: &Pubkey) -> (found: Option<usize>)
    ensures
        match found {
            Some(j) => spec_first_account(accounts@, key@) == Some(j as int),
            None => spec_first_account(accounts@, key@) is None,
        },
{
    let mut j: usize = 0;
    while j < accounts.len()
        invariant
            j <= accounts@.len(),
            spec_first_account(accounts@, key@) == spec_first_account_from(accounts@, key@, j as int),
        decreases accounts@.len() - j,
    {
        if pubkey_eq(&accounts[j].account.key, key) {
            return Some(j);
        }
        j = j + 1;
    }
    None
}

} // verus!
