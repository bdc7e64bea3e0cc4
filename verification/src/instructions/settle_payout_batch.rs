//! Permissionless payouts of a finalized giveaway: each listed winner is
//! checked against its participant account and the locked threshold key and
//! paid once; the last batch pays the service fee, refunds the rest of the
//! vault to the creator and settles the giveaway.
use vstd::prelude::*;
use crate::address::{pubkey_to_string, spec_pubkey_base58};
use crate::bytes::{bytes_lex_le, lex_le, pubkey_eq, to_array32, Pubkey};
use crate::constants::{MAX_WINNERS_PER_BATCH, MIN_WINNER_PAYOUT_LAMPORTS};
use crate::error::GiveawayError;
use crate::events::{events_view, GiveawayEvent, GiveawayEventView};
use crate::state::config::Config;
use crate::state::giveaway::{spec_service_fee, Giveaway, GiveawayStatus};
use crate::state::participant::{same_outside, Participant};
use crate::state::winners_ledger::WinnersLedger;
use crate::utils::account::{copy_accounts, transfer_lamports, AccountSnapshot, ParticipantAccountInfo};
use crate::utils::crypto::{compute_candidate_key, spec_candidate_key};
use crate::utils::pda::{assert_pda_owned, participant_seeds, spec_is_pda, spec_participant_seeds};

verus! {

/// One winner to pay. The Merkle proof is kept for wire compatibility; the
/// participant account is checked directly instead.
pub struct WinnerProof {
    pub winner: Pubkey,
    pub amount: u64,
    pub winner_index: u32,
    pub merkle_proof: Vec<Vec<u8>>,
}

/// Accounts of a payout batch. The remaining accounts come in pairs: the
/// winner's participant account, then the winner's wallet.
pub struct SettlePayoutBatch {
    pub config: Config,
    pub giveaway_key: Pubkey,
    pub giveaway: Giveaway,
    pub vault: AccountSnapshot,
    pub winners_ledger_key: Pubkey,
    pub winners_ledger: WinnersLedger,
    pub authority: AccountSnapshot,
    pub creator: AccountSnapshot,
    pub remaining_accounts: Vec<ParticipantAccountInfo>,
}

/// The lamport-holding accounts of a batch. Every snapshot of one address
/// stands for the same account: a write reaches all of them.
pub struct PayoutAccounts {
    pub vault: AccountSnapshot,
    pub authority: AccountSnapshot,
    pub creator: AccountSnapshot,
    pub remaining: Seq<ParticipantAccountInfo>,
}

/// The accounts of a batch context.
pub open spec fn payout_accounts(ctx: SettlePayoutBatch) -> PayoutAccounts {
    PayoutAccounts {
        vault: ctx.vault,
        authority: ctx.authority,
        creator: ctx.creator,
        remaining: ctx.remaining_accounts@,
    }
}

/// The balance of the first remaining account at `key` (0 if none).
pub open spec fn remaining_balance(rem: Seq<ParticipantAccountInfo>, key: Seq<u8>) -> u64
    decreases rem.len(),
{
    if rem.len() == 0 {
        0
    } else if rem[0].account.key@ == key {
        rem[0].account.lamports
    } else {
        remaining_balance(rem.drop_first(), key)
    }
}

/// The balance of the account at `key`, read from the vault, the authority,
/// the creator or the remaining accounts, in that order.
pub open spec fn balance(m: PayoutAccounts, key: Seq<u8>) -> u64 {
    if m.vault.key@ == key {
        m.vault.lamports
    } else if m.authority.key@ == key {
        m.authority.lamports
    } else if m.creator.key@ == key {
        m.creator.lamports
    } else {
        remaining_balance(m.remaining, key)
    }
}

/// `a` with balance `v` if it is the account at `key`.
pub open spec fn set_balance(a: AccountSnapshot, key: Seq<u8>, v: u64) -> AccountSnapshot {
    if a.key@ == key {
        AccountSnapshot { lamports: v, ..a }
    } else {
        a
    }
}

/// Every snapshot of the account at `key` holds balance `v`.
pub open spec fn with_lamports(m: PayoutAccounts, key: Seq<u8>, v: u64) -> PayoutAccounts {
    PayoutAccounts {
        vault: set_balance(m.vault, key, v),
        authority: set_balance(m.authority, key, v),
        creator: set_balance(m.creator, key, v),
        remaining: m.remaining.map_values(
            |info: ParticipantAccountInfo|
                ParticipantAccountInfo {
                    account: set_balance(info.account, key, v),
                    participant: info.participant,
                },
        ),
    }
}

/// Every remaining snapshot of the account at `key` holds entry `q`.
pub open spec fn with_entry(m: PayoutAccounts, key: Seq<u8>, q: Participant) -> PayoutAccounts {
    PayoutAccounts {
        remaining: m.remaining.map_values(
            |info: ParticipantAccountInfo|
                if info.account.key@ == key {
                    ParticipantAccountInfo { account: info.account, participant: Some(q) }
                } else {
                    info
                },
        ),
        ..m
    }
}

/// Moving `amount` lamports from the account at `from` to the one at `to`:
/// the source is debited, then the destination (as it then stands) is
/// credited.
pub open spec fn spec_transfer(m: PayoutAccounts, from: Seq<u8>, to: Seq<u8>, amount: u64) -> Result<
    PayoutAccounts,
    GiveawayError,
> {
    let fb = balance(m, from);
    if fb < amount {
        Err(GiveawayError::InsufficientFunds)
    } else {
        let m1 = with_lamports(m, from, (fb - amount) as u64);
        let tb = balance(m1, to);
        if tb + amount > u64::MAX {
            Err(GiveawayError::MathOverflow)
        } else {
            Ok(with_lamports(m1, to, (tb + amount) as u64))
        }
    }
}

fn remaining_balance_of(rem: &Vec<ParticipantAccountInfo>, key: &Pubkey) -> (b: u64)
    ensures
        b == remaining_balance(rem@, key@),
{
    let mut j: usize = 0;
    assert(rem@.subrange(0, rem@.len() as int) =~= rem@);
    while j < rem.len()
        invariant
            j <= rem@.len(),
            remaining_balance(rem@, key@) == remaining_balance(rem@.subrange(j as int, rem@.len() as int), key@),
        decreases rem@.len() - j,
    {
        let ghost tail = rem@.subrange(j as int, rem@.len() as int);
        assert(tail.drop_first() =~= rem@.subrange(j + 1, rem@.len() as int));
        if pubkey_eq(&rem[j].account.key, key) {
            return rem[j].account.lamports;
        }
        j = j + 1;
    }
    0
}

fn balance_of(ctx: &SettlePayoutBatch, key: &Pubkey) -> (b: u64)
    ensures
        b == balance(payout_accounts(*ctx), key@),
{
    if pubkey_eq(&ctx.vault.key, key) {
        ctx.vault.lamports
    } else if pubkey_eq(&ctx.authority.key, key) {
        ctx.authority.lamports
    } else if pubkey_eq(&ctx.creator.key, key) {
        ctx.creator.lamports
    } else {
        remaining_balance_of(&ctx.remaining_accounts, key)
    }
}

/// The batch context with its accounts replaced by `m`.
pub open spec fn with_accounts(ctx: SettlePayoutBatch, ctx1: SettlePayoutBatch, m: PayoutAccounts) -> bool {
    &&& payout_accounts(ctx1) == m
    &&& ctx1.config == ctx.config
    &&& ctx1.giveaway_key == ctx.giveaway_key
    &&& ctx1.giveaway == ctx.giveaway
    &&& ctx1.winners_ledger_key == ctx.winners_ledger_key
    &&& ctx1.winners_ledger == ctx.winners_ledger
}

fn set_lamports(ctx: &mut SettlePayoutBatch, key: &Pubkey, v: u64)
    ensures
        with_accounts(*old(ctx), *final(ctx), with_lamports(payout_accounts(*old(ctx)), key@, v)),
{
    if pubkey_eq(&ctx.vault.key, key) {
        ctx.vault.lamports = v;
    }
    if pubkey_eq(&ctx.authority.key, key) {
        ctx.authority.lamports = v;
    }
    if pubkey_eq(&ctx.creator.key, key) {
        ctx.creator.lamports = v;
    }
    let ghost m0 = payout_accounts(*old(ctx));
    let ghost target = with_lamports(m0, key@, v);
    let mut j: usize = 0;
    while j < ctx.remaining_accounts.len()
        invariant
            j <= ctx.remaining_accounts@.len(),
            m0 == payout_accounts(*old(ctx)),
            target == with_lamports(m0, key@, v),
            ctx.remaining_accounts@.len() == m0.remaining.len(),
            target.remaining.len() == m0.remaining.len(),
            forall|i: int| 0 <= i < j ==> ctx.remaining_accounts@[i] == target.remaining[i],
            forall|i: int| j <= i < m0.remaining.len() ==> ctx.remaining_accounts@[i] == m0.remaining[i],
            ctx.vault == target.vault,
            ctx.authority == target.authority,
            ctx.creator == target.creator,
            ctx.config == old(ctx).config,
            ctx.giveaway_key == old(ctx).giveaway_key,
            ctx.giveaway == old(ctx).giveaway,
            ctx.winners_ledger_key == old(ctx).winners_ledger_key,
            ctx.winners_ledger == old(ctx).winners_ledger,
        decreases m0.remaining.len() - j,
    {
        let ghost info = m0.remaining[j as int];
        assert(target.remaining[j as int] == ParticipantAccountInfo {
            account: set_balance(info.account, key@, v),
            participant: info.participant,
        });
        if pubkey_eq(&ctx.remaining_accounts[j].account.key, key) {
            let mut account = ctx.remaining_accounts[j].account;
            account.lamports = v;
            let participant = match &ctx.remaining_accounts[j].participant {
                Some(p) => Some(p.duplicate()),
                None => None,
            };
            ctx.remaining_accounts.set(j, ParticipantAccountInfo { account, participant });
        }
        j = j + 1;
    }
    assert(ctx.remaining_accounts@ =~= target.remaining);
}

proof fn lemma_remaining_balance_other(
    rem: Seq<ParticipantAccountInfo>,
    key: Seq<u8>,
    v: u64,
    other: Seq<u8>,
)
    requires
        other != key,
    ensures
        remaining_balance(
            rem.map_values(
                |info: ParticipantAccountInfo|
                    ParticipantAccountInfo {
                        account: set_balance(info.account, key, v),
                        participant: info.participant,
                    },
            ),
            other,
        ) == remaining_balance(rem, other),
    decreases rem.len(),
{
    let f = |info: ParticipantAccountInfo|
        ParticipantAccountInfo {
            account: set_balance(info.account, key, v),
            participant: info.participant,
        };
    if rem.len() > 0 {
        assert(rem.map_values(f).drop_first() =~= rem.drop_first().map_values(f));
        lemma_remaining_balance_other(rem.drop_first(), key, v, other);
    }
}

/// Setting the balance at one address leaves the balance at every other
/// address as it was.
proof fn lemma_balance_other(m: PayoutAccounts, key: Seq<u8>, v: u64, other: Seq<u8>)
    requires
        other != key,
    ensures
        balance(with_lamports(m, key, v), other) == balance(m, other),
{
    lemma_remaining_balance_other(m.remaining, key, v, other);
}

/// Some account of the batch sits at `key`.
pub open spec fn has_account(m: PayoutAccounts, key: Seq<u8>) -> bool {
    ||| m.vault.key@ == key
    ||| m.authority.key@ == key
    ||| m.creator.key@ == key
    ||| exists|j: int| 0 <= j < m.remaining.len() && (#[trigger] m.remaining[j]).account.key@ == key
}

proof fn lemma_remaining_balance_same(rem: Seq<ParticipantAccountInfo>, key: Seq<u8>, v: u64)
    ensures
        (exists|j: int| 0 <= j < rem.len() && (#[trigger] rem[j]).account.key@ == key)
            ==> remaining_balance(
            rem.map_values(
                |info: ParticipantAccountInfo|
                    ParticipantAccountInfo {
                        account: set_balance(info.account, key, v),
                        participant: info.participant,
                    },
            ),
            key,
        ) == v,
        !(exists|j: int| 0 <= j < rem.len() && (#[trigger] rem[j]).account.key@ == key)
            ==> remaining_balance(rem, key) == 0,
    decreases rem.len(),
{
    let f = |info: ParticipantAccountInfo|
        ParticipantAccountInfo {
            account: set_balance(info.account, key, v),
            participant: info.participant,
        };
    if rem.len() > 0 {
        assert(rem.map_values(f).drop_first() =~= rem.drop_first().map_values(f));
        lemma_remaining_balance_same(rem.drop_first(), key, v);
        if rem[0].account.key@ != key {
            if exists|j: int| 0 <= j < rem.len() && (#[trigger] rem[j]).account.key@ == key {
                let j = choose|j: int| 0 <= j < rem.len() && (#[trigger] rem[j]).account.key@ == key;
                assert(rem.drop_first()[j - 1] == rem[j]);
            }
            if !(exists|j: int| 0 <= j < rem.len() && (#[trigger] rem[j]).account.key@ == key) {
                assert forall|j: int| 0 <= j < rem.drop_first().len() implies (
                #[trigger] rem.drop_first()[j]).account.key@ != key by {
                    assert(rem.drop_first()[j] == rem[j + 1]);
                }
            }
        }
    }
}

/// After a balance write at an address that holds an account, the balance
/// there is the written one; with no account there the balance reads 0.
proof fn lemma_balance_same(m: PayoutAccounts, key: Seq<u8>, v: u64)
    ensures
        has_account(m, key) ==> balance(with_lamports(m, key, v), key) == v,
        !has_account(m, key) ==> balance(m, key) == 0,
{
    lemma_remaining_balance_same(m.remaining, key, v);
}

/// A balance write at an address that holds no account changes nothing.
proof fn lemma_no_account_write(m: PayoutAccounts, key: Seq<u8>, v: u64)
    requires
        !has_account(m, key),
    ensures
        with_lamports(m, key, v) == m,
{
    assert forall|j: int| 0 <= j < m.remaining.len() implies (#[trigger] m.remaining[j]).account.key@
        != key by {}
    assert(with_lamports(m, key, v).remaining =~= m.remaining);
}

/// A second balance write at one address replaces the first.
proof fn lemma_with_lamports_twice(m: PayoutAccounts, key: Seq<u8>, a: u64, b: u64)
    ensures
        with_lamports(with_lamports(m, key, a), key, b) == with_lamports(m, key, b),
{
    assert(with_lamports(with_lamports(m, key, a), key, b).remaining =~= with_lamports(
        m,
        key,
        b,
    ).remaining);
}

fn move_lamports(ctx: &mut SettlePayoutBatch, from: &Pubkey, to: &Pubkey, amount: u64) -> (result:
    Result<(), GiveawayError>)
    ensures
        spec_transfer(payout_accounts(*old(ctx)), from@, to@, amount) matches Err(e) ==> result
            == Err::<(), _>(e),
        spec_transfer(payout_accounts(*old(ctx)), from@, to@, amount) matches Ok(m1) ==> (result
            is Ok && with_accounts(*old(ctx), *final(ctx), m1)),
{
    let ghost m = payout_accounts(*ctx);
    let fb = balance_of(ctx, from);
    let tb = balance_of(ctx, to);
    let mut src = AccountSnapshot {
        key: *from,
        owner: *from,
        lamports: fb,
        is_writable: true,
        is_signer: false,
        data_is_empty: false,
    };
    let mut dst = AccountSnapshot {
        key: *to,
        owner: *to,
        lamports: tb,
        is_writable: true,
        is_signer: false,
        data_is_empty: false,
    };
    proof {
        if fb >= amount && from@ != to@ {
            lemma_balance_other(m, from@, (fb - amount) as u64, to@);
        }
        lemma_balance_same(m, from@, (fb - amount) as u64);
    }
    transfer_lamports(&mut src, &mut dst, amount)?;
    set_lamports(ctx, from, src.lamports);
    set_lamports(ctx, to, dst.lamports);
    proof {
        if from@ == to@ {
            lemma_with_lamports_twice(m, from@, fb, fb);
            lemma_with_lamports_twice(m, from@, (fb - amount) as u64, fb);
            if !has_account(m, from@) {
                lemma_no_account_write(m, from@, (fb - amount) as u64);
                lemma_no_account_write(m, from@, fb);
                lemma_balance_same(m, from@, fb);
            }
        }
    }
    Ok(())
}

fn set_entry(ctx: &mut SettlePayoutBatch, key: &Pubkey, q: &Participant)
    ensures
        with_accounts(*old(ctx), *final(ctx), with_entry(payout_accounts(*old(ctx)), key@, *q)),
{
    let ghost m0 = payout_accounts(*old(ctx));
    let ghost target = with_entry(m0, key@, *q);
    let mut j: usize = 0;
    while j < ctx.remaining_accounts.len()
        invariant
            j <= ctx.remaining_accounts@.len(),
            m0 == payout_accounts(*old(ctx)),
            target == with_entry(m0, key@, *q),
            ctx.remaining_accounts@.len() == m0.remaining.len(),
            target.remaining.len() == m0.remaining.len(),
            forall|i: int| 0 <= i < j ==> ctx.remaining_accounts@[i] == target.remaining[i],
            forall|i: int| j <= i < m0.remaining.len() ==> ctx.remaining_accounts@[i] == m0.remaining[i],
            ctx.vault == old(ctx).vault,
            ctx.authority == old(ctx).authority,
            ctx.creator == old(ctx).creator,
            ctx.config == old(ctx).config,
            ctx.giveaway_key == old(ctx).giveaway_key,
            ctx.giveaway == old(ctx).giveaway,
            ctx.winners_ledger_key == old(ctx).winners_ledger_key,
            ctx.winners_ledger == old(ctx).winners_ledger,
        decreases m0.remaining.len() - j,
    {
        let ghost info = m0.remaining[j as int];
        assert(target.remaining[j as int] == if info.account.key@ == key@ {
            ParticipantAccountInfo { account: info.account, participant: Some(*q) }
        } else {
            info
        });
        if pubkey_eq(&ctx.remaining_accounts[j].account.key, key) {
            let account = ctx.remaining_accounts[j].account;
            ctx.remaining_accounts.set(
                j,
                ParticipantAccountInfo { account, participant: Some(q.duplicate()) },
            );
        }
        j = j + 1;
    }
    assert(ctx.remaining_accounts@ =~= target.remaining);
}

/// The finalization seed kept in the first 32 reserved bytes of the
/// settlement root.
pub open spec fn spec_root_seed(root: WinnersLedger) -> Seq<u8> {
    root.reserved@.subrange(0, 32)
}

/// Reads the finalization seed from the settlement root: the first half of
/// every threshold key hashes it with the wallet.
fn root_seed(root: &WinnersLedger) -> (seed: [u8; 32])
    ensures
        seed@ == spec_root_seed(*root),
{
    to_array32(vstd::slice::slice_subrange(root.reserved.as_slice(), 0, 32))
}

/// `q1` is `q` marked paid under `version`, updated at `t`.
pub open spec fn paid_marked(q: Participant, version: u32, t: i64, q1: Participant) -> bool {
    &&& q1.spec_payout_version() == version
    &&& same_outside(q1.reserved@, q.reserved@, 10, 14)
    &&& q1 == Participant { last_updated_unix: t, reserved: q1.reserved, ..q }
}

/// The error, if any, of the checks on winner `i` of the batch: index and
/// amount, the writable participant and wallet accounts, the decoded entry
/// of this giveaway and wallet at its canonical PDA, its eligibility, and its
/// candidate key within the locked threshold.
pub open spec fn spec_winner_check_error(
    program_id: Seq<u8>,
    giveaway_key: Seq<u8>,
    root: WinnersLedger,
    m: PayoutAccounts,
    proof: WinnerProof,
    i: int,
) -> Option<GiveawayError> {
    let p = m.remaining[2 * i];
    let w = m.remaining[2 * i + 1];
    let q = p.participant->0;
    if !(proof.winner_index < root.winners_count) {
        Some(GiveawayError::InvalidBatch)
    } else if proof.amount != root.per_winner_lamports {
        Some(GiveawayError::InvalidBatch)
    } else if proof.amount < MIN_WINNER_PAYOUT_LAMPORTS {
        Some(GiveawayError::InvalidBatch)
    } else if !(p.account.is_writable && w.account.is_writable) {
        Some(GiveawayError::AccountNotWritable)
    } else if p.account.owner@ != program_id {
        Some(GiveawayError::InvalidProgram)
    } else if p.participant is None {
        Some(GiveawayError::AccountNotInitialized)
    } else if q.giveaway@ != giveaway_key {
        Some(GiveawayError::InvalidAccount)
    } else if q.wallet@ != proof.winner@ {
        Some(GiveawayError::InvalidAccount)
    } else if w.account.key@ != proof.winner@ {
        Some(GiveawayError::InvalidAccount)
    } else if !spec_is_pda(
        p.account.key@,
        spec_participant_seeds(giveaway_key, q.wallet@),
        program_id,
    ) {
        Some(GiveawayError::InvalidAccount)
    } else if !(!q.disqualified && q.reveal_included) {
        Some(GiveawayError::NoEligibleParticipants)
    } else if !lex_le(spec_candidate_key(spec_root_seed(root), q.wallet@), root.threshold_key@) {
        Some(GiveawayError::InvalidBatch)
    } else {
        None
    }
}

/// Winner `i`'s entry was already paid under the settlement root's version.
pub open spec fn spec_already_paid(root: WinnersLedger, m: PayoutAccounts, i: int) -> bool {
    m.remaining[2 * i].participant->0.spec_payout_version() == root.recompute_version
}

/// The error, if any, of paying winner `i`: the transfer from the vault to
/// the wallet, then the ledger's paid count.
pub open spec fn spec_pay_error(
    vault_key: Seq<u8>,
    root: WinnersLedger,
    m: PayoutAccounts,
    proof: WinnerProof,
) -> Option<GiveawayError> {
    match spec_transfer(m, vault_key, proof.winner@, proof.amount) {
        Err(e) => Some(e),
        Ok(_) => if root.paid_count >= root.winners_count {
            Some(GiveawayError::AlreadyPaid)
        } else {
            None
        },
    }
}

/// The error, if any, of handling winner `i`.
pub open spec fn spec_winner_error(
    program_id: Seq<u8>,
    giveaway_key: Seq<u8>,
    vault_key: Seq<u8>,
    root: WinnersLedger,
    m: PayoutAccounts,
    proof: WinnerProof,
    i: int,
) -> Option<GiveawayError> {
    if spec_winner_check_error(program_id, giveaway_key, root, m, proof, i) is Some {
        spec_winner_check_error(program_id, giveaway_key, root, m, proof, i)
    } else if spec_already_paid(root, m, i) {
        None
    } else {
        spec_pay_error(vault_key, root, m, proof)
    }
}

/// Handling winner `i` at `now` moves the ledger from `root` to `root1` and
/// the accounts from `m` to `m1`; `paid` tells whether it paid: a winner
/// already paid under this version is skipped, any other is paid from the
/// vault, marked paid, and counted.
pub open spec fn spec_winner_step(
    program_id: Seq<u8>,
    giveaway_key: Seq<u8>,
    vault_key: Seq<u8>,
    root: WinnersLedger,
    m: PayoutAccounts,
    proof: WinnerProof,
    i: int,
    now: i64,
    root1: WinnersLedger,
    m1: PayoutAccounts,
    paid: bool,
) -> bool {
    let p = m.remaining[2 * i];
    let q1 = m1.remaining[2 * i].participant->0;
    &&& spec_winner_error(program_id, giveaway_key, vault_key, root, m, proof, i) is None
    &&& if spec_already_paid(root, m, i) {
        !paid && root1 == root && m1 == m
    } else {
        &&& paid
        &&& root1 == WinnersLedger { paid_count: (root.paid_count + 1) as u32, ..root }
        &&& paid_marked(p.participant->0, root.recompute_version, now, q1)
        &&& m1 == with_entry(
            spec_transfer(m, vault_key, proof.winner@, proof.amount)->Ok_0,
            p.account.key@,
            q1,
        )
    }
}

/// The context keeps everything but the accounts and the settlement root.
pub open spec fn same_payout_frame(ctx: SettlePayoutBatch, ctx1: SettlePayoutBatch) -> bool {
    &&& ctx1.config == ctx.config
    &&& ctx1.giveaway_key == ctx.giveaway_key
    &&& ctx1.giveaway == ctx.giveaway
    &&& ctx1.winners_ledger_key == ctx.winners_ledger_key
    &&& ctx1.vault.key == ctx.vault.key
    &&& ctx1.authority.key == ctx.authority.key
    &&& ctx1.creator.key == ctx.creator.key
    &&& ctx1.remaining_accounts@.len() == ctx.remaining_accounts@.len()
}

proof fn lemma_with_lamports_frame(m: PayoutAccounts, key: Seq<u8>, v: u64)
    ensures
        with_lamports(m, key, v).vault.key == m.vault.key,
        with_lamports(m, key, v).authority.key == m.authority.key,
        with_lamports(m, key, v).creator.key == m.creator.key,
        with_lamports(m, key, v).remaining.len() == m.remaining.len(),
{
}

/// A winner is paid once: after a batch pays winner `i`, every listing of
/// the same participant account reads as already paid under the settlement
/// root's version, so handling it again pays nothing.
pub proof fn lemma_paid_winner_is_skipped(
    program_id: Seq<u8>,
    giveaway_key: Seq<u8>,
    vault_key: Seq<u8>,
    root: WinnersLedger,
    m: PayoutAccounts,
    proof: WinnerProof,
    i: int,
    now: i64,
    root1: WinnersLedger,
    m1: PayoutAccounts,
    j: int,
)
    requires
        spec_winner_step(
            program_id,
            giveaway_key,
            vault_key,
            root,
            m,
            proof,
            i,
            now,
            root1,
            m1,
            true,
        ),
        0 <= 2 * i + 1 < m.remaining.len(),
        0 <= 2 * j < m1.remaining.len(),
        m1.remaining[2 * j].account.key@ == m.remaining[2 * i].account.key@,
    ensures
        spec_already_paid(root1, m1, j),
{
    let transferred = spec_transfer(m, vault_key, proof.winner@, proof.amount)->Ok_0;
    let key = m.remaining[2 * i].account.key@;
    let q1 = m1.remaining[2 * i].participant->0;
    assert(transferred.remaining.len() == m.remaining.len());
    assert(m1.remaining[2 * i].participant == Some(q1));
    assert(m1.remaining[2 * j].participant == Some(q1));
}

/// A winner is paid at most once, across batches too: once a step has paid
/// winner `i`, a later step (in this batch or in a later call) that reads
/// the entry stored by that payment, under a settlement root of the same
/// version, pays nothing and changes neither the root nor any account.
pub proof fn lemma_winner_paid_once_across_batches(
    program_id: Seq<u8>,
    giveaway_key: Seq<u8>,
    vault_key: Seq<u8>,
    root: WinnersLedger,
    m: PayoutAccounts,
    proof: WinnerProof,
    i: int,
    now: i64,
    root1: WinnersLedger,
    m1: PayoutAccounts,
    root2: WinnersLedger,
    m2: PayoutAccounts,
    proof2: WinnerProof,
    j: int,
    now2: i64,
    root3: WinnersLedger,
    m3: PayoutAccounts,
    paid2: bool,
)
    requires
        spec_winner_step(
            program_id,
            giveaway_key,
            vault_key,
            root,
            m,
            proof,
            i,
            now,
            root1,
            m1,
            true,
        ),
        0 <= 2 * i + 1 < m.remaining.len(),
        0 <= 2 * j + 1 < m2.remaining.len(),
        m2.remaining[2 * j].participant == m1.remaining[2 * i].participant,
        root2.recompute_version == root1.recompute_version,
        spec_winner_step(
            program_id,
            giveaway_key,
            vault_key,
            root2,
            m2,
            proof2,
            j,
            now2,
            root3,
            m3,
            paid2,
        ),
    ensures
        !paid2,
        root3 == root2,
        m3 == m2,
{
    assert(spec_already_paid(root2, m2, j));
}

fn pay_winner(
    ctx: &mut SettlePayoutBatch,
    program_id: &Pubkey,
    proof: &WinnerProof,
    i: usize,
    now: i64,
) -> (result: Result<bool, GiveawayError>)
    requires
        2 * i + 1 < old(ctx).remaining_accounts@.len(),
    ensures
        spec_winner_error(
            program_id@,
            old(ctx).giveaway_key@,
            old(ctx).vault.key@,
            old(ctx).winners_ledger,
            payout_accounts(*old(ctx)),
            *proof,
            i as int,
        ) matches Some(e) ==> result == Err::<bool, _>(e),
        spec_winner_error(
            program_id@,
            old(ctx).giveaway_key@,
            old(ctx).vault.key@,
            old(ctx).winners_ledger,
            payout_accounts(*old(ctx)),
            *proof,
            i as int,
        ) is None ==> (result matches Ok(paid) && spec_winner_step(
            program_id@,
            old(ctx).giveaway_key@,
            old(ctx).vault.key@,
            old(ctx).winners_ledger,
            payout_accounts(*old(ctx)),
            *proof,
            i as int,
            now,
            final(ctx).winners_ledger,
            payout_accounts(*final(ctx)),
            paid,
        ) && same_payout_frame(*old(ctx), *final(ctx))),
{
    if !ctx.winners_ledger.validate_winner_index(proof.winner_index) {
        return Err(GiveawayError::InvalidBatch);
    }
    if proof.amount != ctx.winners_ledger.per_winner_lamports {
        return Err(GiveawayError::InvalidBatch);
    }
    if proof.amount < MIN_WINNER_PAYOUT_LAMPORTS {
        return Err(GiveawayError::InvalidBatch);
    }
    let n = ctx.remaining_accounts.len();
    assert(2 * i + 1 < n);
    let participant_account = ctx.remaining_accounts[2 * i].account;
    let winner_account = ctx.remaining_accounts[2 * i + 1].account;
    if !(participant_account.is_writable && winner_account.is_writable) {
        return Err(GiveawayError::AccountNotWritable);
    }
    if !pubkey_eq(&participant_account.owner, program_id) {
        return Err(GiveawayError::InvalidProgram);
    }
    let mut participant = match &ctx.remaining_accounts[2 * i].participant {
        Some(q) => q.duplicate(),
        None => {
            return Err(GiveawayError::AccountNotInitialized);
        },
    };
    if !pubkey_eq(&participant.giveaway, &ctx.giveaway_key) {
        return Err(GiveawayError::InvalidAccount);
    }
    if !pubkey_eq(&participant.wallet, &proof.winner) {
        return Err(GiveawayError::InvalidAccount);
    }
    if !pubkey_eq(&winner_account.key, &proof.winner) {
        return Err(GiveawayError::InvalidAccount);
    }
    let seeds = participant_seeds(&ctx.giveaway_key, &participant.wallet);
    assert_pda_owned(program_id, &participant_account, &seeds)?;
    if !participant.is_eligible() {
        return Err(GiveawayError::NoEligibleParticipants);
    }
    let seed = root_seed(&ctx.winners_ledger);
    let key = compute_candidate_key(&seed, &participant.wallet);
    if !bytes_lex_le(key.as_slice(), ctx.winners_ledger.threshold_key.as_slice()) {
        return Err(GiveawayError::InvalidBatch);
    }
    if participant.payout_version() == ctx.winners_ledger.recompute_version {
        return Ok(false);
    }
    let ghost m0 = payout_accounts(*ctx);
    let vault_key = ctx.vault.key;
    move_lamports(ctx, &vault_key, &winner_account.key, proof.amount)?;
    proof {
        lemma_with_lamports_frame(m0, vault_key@, (balance(m0, vault_key@) - proof.amount) as u64);
    }
    let version = ctx.winners_ledger.recompute_version;
    participant.mark_paid_for_version(version, now);
    set_entry(ctx, &participant_account.key, &participant);
    ctx.winners_ledger.mark_winner_paid()?;
    Ok(true)
}

/// The first `n` winners of the batch were handled in order: winner `i`
/// took the settlement root from `roots[i]` to `roots[i + 1]`, the accounts
/// from `ms[i]` to `ms[i + 1]`, and was paid when `paid[i]` holds.
pub open spec fn spec_payouts(
    program_id: Seq<u8>,
    giveaway_key: Seq<u8>,
    vault_key: Seq<u8>,
    winners: Seq<WinnerProof>,
    n: int,
    now: i64,
    roots: Seq<WinnersLedger>,
    ms: Seq<PayoutAccounts>,
    paid: Seq<bool>,
) -> bool {
    &&& 0 <= n <= winners.len()
    &&& roots.len() == n + 1
    &&& ms.len() == n + 1
    &&& paid.len() == n
    &&& forall|i: int|
        0 <= i < n ==> #[trigger] spec_winner_step(
            program_id,
            giveaway_key,
            vault_key,
            roots[i],
            ms[i],
            winners[i],
            i,
            now,
            roots[i + 1],
            ms[i + 1],
            paid[i],
        )
}

/// The winner-paid events of the first `paid.len()` winners, in order.
pub open spec fn spec_paid_events(
    giveaway_id: u64,
    giveaway_key: Seq<u8>,
    batch_index: u32,
    winners: Seq<WinnerProof>,
    paid: Seq<bool>,
    now: i64,
) -> Seq<GiveawayEventView>
    decreases paid.len(),
{
    if paid.len() == 0 {
        Seq::empty()
    } else {
        let rest = spec_paid_events(
            giveaway_id,
            giveaway_key,
            batch_index,
            winners,
            paid.drop_last(),
            now,
        );
        let proof = winners[paid.len() - 1];
        if paid.last() {
            rest.push(
                GiveawayEventView::WinnerPaid {
                    giveaway_id,
                    giveaway: spec_pubkey_base58(giveaway_key),
                    winner: spec_pubkey_base58(proof.winner@),
                    amount_lamports: proof.amount,
                    batch_index,
                    winner_index: proof.winner_index,
                    timestamp: now,
                },
            )
        } else {
            rest
        }
    }
}

proof fn lemma_payouts_extend(
    program_id: Seq<u8>,
    giveaway_key: Seq<u8>,
    vault_key: Seq<u8>,
    winners: Seq<WinnerProof>,
    k: int,
    now: i64,
    roots: Seq<WinnersLedger>,
    ms: Seq<PayoutAccounts>,
    paid: Seq<bool>,
    root1: WinnersLedger,
    m1: PayoutAccounts,
    p: bool,
)
    requires
        k < winners.len(),
        spec_payouts(program_id, giveaway_key, vault_key, winners, k, now, roots, ms, paid),
        spec_winner_step(
            program_id,
            giveaway_key,
            vault_key,
            roots[k],
            ms[k],
            winners[k],
            k,
            now,
            root1,
            m1,
            p,
        ),
    ensures
        spec_payouts(
            program_id,
            giveaway_key,
            vault_key,
            winners,
            k + 1,
            now,
            roots.push(root1),
            ms.push(m1),
            paid.push(p),
        ),
{
    let roots1 = roots.push(root1);
    let ms1 = ms.push(m1);
    assert forall|i: int| 0 <= i < k + 1 implies #[trigger] spec_winner_step(
        program_id,
        giveaway_key,
        vault_key,
        roots1[i],
        ms1[i],
        winners[i],
        i,
        now,
        roots1[i + 1],
        ms1[i + 1],
        paid.push(p)[i],
    ) by {
        if i < k {
            assert(roots1[i] == roots[i] && roots1[i + 1] == roots[i + 1]);
            assert(ms1[i] == ms[i] && ms1[i + 1] == ms[i + 1]);
            assert(spec_winner_step(
                program_id,
                giveaway_key,
                vault_key,
                roots[i],
                ms[i],
                winners[i],
                i,
                now,
                roots[i + 1],
                ms[i + 1],
                paid[i],
            ));
        }
    }
}

proof fn lemma_paid_events_push(
    giveaway_id: u64,
    giveaway_key: Seq<u8>,
    batch_index: u32,
    winners: Seq<WinnerProof>,
    paid: Seq<bool>,
    p: bool,
    now: i64,
)
    requires
        paid.len() < winners.len(),
    ensures
        spec_paid_events(giveaway_id, giveaway_key, batch_index, winners, paid.push(p), now) == if p {
            spec_paid_events(giveaway_id, giveaway_key, batch_index, winners, paid, now).push(
                GiveawayEventView::WinnerPaid {
                    giveaway_id,
                    giveaway: spec_pubkey_base58(giveaway_key),
                    winner: spec_pubkey_base58(winners[paid.len() as int].winner@),
                    amount_lamports: winners[paid.len() as int].amount,
                    batch_index,
                    winner_index: winners[paid.len() as int].winner_index,
                    timestamp: now,
                },
            )
        } else {
            spec_paid_events(giveaway_id, giveaway_key, batch_index, winners, paid, now)
        },
{
    assert(paid.push(p).drop_last() =~= paid);
}

/// The settling transfers of the last batch fail with an error: the service
/// fee to the authority, then the rest of the vault to the creator.
pub open spec fn spec_settle_tail_error(
    vault_key: Seq<u8>,
    authority_key: Seq<u8>,
    creator_key: Seq<u8>,
    fee: u64,
    m: PayoutAccounts,
) -> Option<GiveawayError> {
    let after_fee = if fee > 0 {
        spec_transfer(m, vault_key, authority_key, fee)
    } else {
        Ok(m)
    };
    match after_fee {
        Err(e) => Some(e),
        Ok(mf) => {
            let refund = balance(mf, vault_key);
            if refund > 0 {
                match spec_transfer(mf, vault_key, creator_key, refund) {
                    Err(e) => Some(e),
                    Ok(_) => None,
                }
            } else {
                None
            }
        },
    }
}

/// The accounts after the fee payment (when the fee is positive).
pub open spec fn spec_after_fee(
    vault_key: Seq<u8>,
    authority_key: Seq<u8>,
    fee: u64,
    m: PayoutAccounts,
) -> PayoutAccounts {
    if fee > 0 {
        spec_transfer(m, vault_key, authority_key, fee)->Ok_0
    } else {
        m
    }
}

/// The accounts after the settling transfers.
pub open spec fn spec_settle_tail_accounts(
    vault_key: Seq<u8>,
    authority_key: Seq<u8>,
    creator_key: Seq<u8>,
    fee: u64,
    m: PayoutAccounts,
) -> PayoutAccounts {
    let mf = spec_after_fee(vault_key, authority_key, fee, m);
    let refund = balance(mf, vault_key);
    if refund > 0 {
        spec_transfer(mf, vault_key, creator_key, refund)->Ok_0
    } else {
        mf
    }
}

/// The events of the settling transfers and of the settlement.
pub open spec fn spec_settle_tail_events(
    g: Giveaway,
    giveaway_key: Seq<u8>,
    vault_key: Seq<u8>,
    authority_key: Seq<u8>,
    creator_key: Seq<u8>,
    root: WinnersLedger,
    m: PayoutAccounts,
    now: i64,
) -> Seq<GiveawayEventView> {
    let fee = spec_service_fee(g.total_payout_lamports, g.service_fee_bps);
    let mf = spec_after_fee(vault_key, authority_key, fee, m);
    let refund = balance(mf, vault_key);
    let fee_events = if fee > 0 {
        seq![
            GiveawayEventView::ServiceFeePaid {
                giveaway_id: g.id,
                giveaway: spec_pubkey_base58(giveaway_key),
                service_fee_lamports: fee,
                authority: spec_pubkey_base58(authority_key),
                timestamp: now,
            },
        ]
    } else {
        Seq::empty()
    };
    let refund_events = if refund > 0 {
        seq![
            GiveawayEventView::CreatorRefunded {
                giveaway_id: g.id,
                giveaway: spec_pubkey_base58(giveaway_key),
                creator: spec_pubkey_base58(creator_key),
                amount_lamports: refund,
                timestamp: now,
            },
        ]
    } else {
        Seq::empty()
    };
    fee_events + refund_events + seq![
        GiveawayEventView::GiveawaySettled {
            giveaway_id: g.id,
            giveaway: spec_pubkey_base58(giveaway_key),
            total_winners: root.winners_count,
            total_paid_lamports: root.total_payout_lamports,
            timestamp: now,
        },
    ]
}

fn settle_tail(ctx: &mut SettlePayoutBatch, now: i64) -> (result: Result<Vec<GiveawayEvent>, GiveawayError>)
    ensures
        ({
            let fee = spec_service_fee(
                old(ctx).giveaway.total_payout_lamports,
                old(ctx).giveaway.service_fee_bps,
            );
            let m = payout_accounts(*old(ctx));
            let err = spec_settle_tail_error(
                old(ctx).vault.key@,
                old(ctx).authority.key@,
                old(ctx).creator.key@,
                fee,
                m,
            );
            &&& err matches Some(e) ==> result == Err::<Vec<GiveawayEvent>, _>(e)
            &&& err is None ==> (result matches Ok(events) && payout_accounts(*final(ctx))
                == spec_settle_tail_accounts(
                old(ctx).vault.key@,
                old(ctx).authority.key@,
                old(ctx).creator.key@,
                fee,
                m,
            ) && final(ctx).giveaway == (Giveaway {
                status: GiveawayStatus::Settled,
                settled: true,
                ..old(ctx).giveaway
            }) && final(ctx).winners_ledger == old(ctx).winners_ledger && final(ctx).config
                == old(ctx).config && final(ctx).giveaway_key == old(ctx).giveaway_key
                && final(ctx).winners_ledger_key == old(ctx).winners_ledger_key && events_view(
                events@,
            ) == spec_settle_tail_events(
                old(ctx).giveaway,
                old(ctx).giveaway_key@,
                old(ctx).vault.key@,
                old(ctx).authority.key@,
                old(ctx).creator.key@,
                old(ctx).winners_ledger,
                m,
                now,
            ))
        }),
{
    let ghost m = payout_accounts(*ctx);
    let mut events: Vec<GiveawayEvent> = Vec::new();
    let vault_key = ctx.vault.key;
    let authority_key = ctx.authority.key;
    let creator_key = ctx.creator.key;
    let fee = ctx.giveaway.calculate_service_fee();
    if fee > 0 {
        move_lamports(ctx, &vault_key, &authority_key, fee)?;
        proof {
            lemma_with_lamports_frame(m, vault_key@, (balance(m, vault_key@) - fee) as u64);
        }
        events.push(
            GiveawayEvent::ServiceFeePaid {
                giveaway_id: ctx.giveaway.id,
                giveaway: pubkey_to_string(&ctx.giveaway_key),
                service_fee_lamports: fee,
                authority: pubkey_to_string(&authority_key),
                timestamp: now,
            },
        );
    }
    let ghost mf = payout_accounts(*ctx);
    let ghost fee_events = events@;
    let refund = ctx.vault.lamports;
    if refund > 0 {
        move_lamports(ctx, &vault_key, &creator_key, refund)?;
        events.push(
            GiveawayEvent::CreatorRefunded {
                giveaway_id: ctx.giveaway.id,
                giveaway: pubkey_to_string(&ctx.giveaway_key),
                creator: pubkey_to_string(&creator_key),
                amount_lamports: refund,
                timestamp: now,
            },
        );
    }
    let ghost refund_events = events@;
    ctx.giveaway.settle();
    events.push(
        GiveawayEvent::GiveawaySettled {
            giveaway_id: ctx.giveaway.id,
            giveaway: pubkey_to_string(&ctx.giveaway_key),
            total_winners: ctx.winners_ledger.winners_count,
            total_paid_lamports: ctx.winners_ledger.total_payout_lamports,
            timestamp: now,
        },
    );
    proof {
        assert(events_view(events@) =~= spec_settle_tail_events(
            old(ctx).giveaway,
            old(ctx).giveaway_key@,
            vault_key@,
            authority_key@,
            creator_key@,
            old(ctx).winners_ledger,
            m,
            now,
        ));
    }
    Ok(events)
}

/// How a payout batch begins.
pub enum PayoutStart {
    /// A check fails with this error.
    Fail(GiveawayError),
    /// The giveaway is already settled: nothing is done.
    AlreadySettled,
    /// The batch is paid.
    Run,
}

/// How a payout batch of `winner_count` winners over these accounts begins:
/// the account constraints, the settled short-cut, the batch size, a
/// non-empty winner set and enough remaining accounts.
pub open spec fn spec_payout_start(ctx: SettlePayoutBatch, winner_count: int) -> PayoutStart {
    let g = ctx.giveaway;
    let root = ctx.winners_ledger;
    if !g.winners_computed {
        PayoutStart::Fail(GiveawayError::WinnersNotComputed)
    } else if !g.winners_locked {
        PayoutStart::Fail(GiveawayError::WinnersNotLocked)
    } else if ctx.vault.key@ != g.vault@ {
        PayoutStart::Fail(GiveawayError::InvalidAccount)
    } else if root.giveaway@ != ctx.giveaway_key@ {
        PayoutStart::Fail(GiveawayError::InvalidAccount)
    } else if !root.locked {
        PayoutStart::Fail(GiveawayError::WinnersNotLocked)
    } else if ctx.authority.key@ != ctx.config.authority@ {
        PayoutStart::Fail(GiveawayError::Unauthorized)
    } else if ctx.creator.key@ != g.creator@ {
        PayoutStart::Fail(GiveawayError::CreatorMismatch)
    } else if g.settled {
        PayoutStart::AlreadySettled
    } else if winner_count == 0 || winner_count > MAX_WINNERS_PER_BATCH {
        PayoutStart::Fail(GiveawayError::InvalidBatch)
    } else if root.winners_count == 0 {
        PayoutStart::Fail(GiveawayError::NoEligibleParticipants)
    } else if ctx.remaining_accounts@.len() < winner_count * 2 {
        PayoutStart::Fail(GiveawayError::InvalidAccount)
    } else {
        PayoutStart::Run
    }
}

/// The settlement root once settlement has started.
pub open spec fn spec_started_root(root: WinnersLedger, now: i64) -> WinnersLedger {
    WinnersLedger {
        settlement_started_at_unix: if root.settlement_started_at_unix == 0 {
            now
        } else {
            root.settlement_started_at_unix
        },
        ..root
    }
}

/// The giveaway once settlement has begun.
pub open spec fn spec_started_giveaway(g: Giveaway, now: i64) -> Giveaway {
    Giveaway {
        settlement_start_unix: if g.settlement_start_unix == 0 {
            now
        } else {
            g.settlement_start_unix
        },
        ..g
    }
}

/// After every winner was handled (settlement root `root_n`, accounts
/// `m_n`), the batch count or the settling transfers fail with `e`.
pub open spec fn spec_tail_fails(
    ctx: SettlePayoutBatch,
    root_n: WinnersLedger,
    m_n: PayoutAccounts,
    e: GiveawayError,
) -> bool {
    if root_n.batches_processed == u32::MAX {
        e == GiveawayError::MathOverflow
    } else {
        &&& root_n.paid_count == root_n.winners_count
        &&& spec_settle_tail_error(
            ctx.vault.key@,
            ctx.authority.key@,
            ctx.creator.key@,
            spec_service_fee(ctx.giveaway.total_payout_lamports, ctx.giveaway.service_fee_bps),
            m_n,
        ) == Some(e)
    }
}

/// A batch that began fails with `e`: at some winner, or after all of them.
pub open spec fn spec_payout_run_fails(
    ctx: SettlePayoutBatch,
    program_id: Seq<u8>,
    winners: Seq<WinnerProof>,
    now: i64,
    e: GiveawayError,
) -> bool {
    exists|k: int, roots: Seq<WinnersLedger>, ms: Seq<PayoutAccounts>, paid: Seq<bool>|
        #[trigger] spec_payouts(
            program_id,
            ctx.giveaway_key@,
            ctx.vault.key@,
            winners,
            k,
            now,
            roots,
            ms,
            paid,
        ) && roots[0] == spec_started_root(ctx.winners_ledger, now) && ms[0] == payout_accounts(
            ctx,
        ) && ((k < winners.len() && spec_winner_error(
            program_id,
            ctx.giveaway_key@,
            ctx.vault.key@,
            roots[k],
            ms[k],
            winners[k],
            k,
        ) == Some(e)) || (k == winners.len() && spec_tail_fails(ctx, roots[k], ms[k], e)))
}

/// A batch that began succeeds along the handled-winner trace `roots`, `ms`,
/// `paid`: every winner is handled in order, the batch is counted, and once
/// every winner is paid the fee is paid, the vault is refunded to the
/// creator and the giveaway is settled.
pub open spec fn spec_payout_run_along(
    ctx: SettlePayoutBatch,
    program_id: Seq<u8>,
    batch_index: u32,
    winners: Seq<WinnerProof>,
    now: i64,
    ctx1: SettlePayoutBatch,
    events: Seq<GiveawayEventView>,
    roots: Seq<WinnersLedger>,
    ms: Seq<PayoutAccounts>,
    paid: Seq<bool>,
) -> bool {
    let g0 = spec_started_giveaway(ctx.giveaway, now);
    let root_n = roots.last();
    let m_n = ms.last();
    let root_b = WinnersLedger {
        batches_processed: (root_n.batches_processed + 1) as u32,
        ..root_n
    };
    let paid_events = spec_paid_events(
        ctx.giveaway.id,
        ctx.giveaway_key@,
        batch_index,
        winners,
        paid,
        now,
    );
    &&& spec_payouts(
        program_id,
        ctx.giveaway_key@,
        ctx.vault.key@,
        winners,
        winners.len() as int,
        now,
        roots,
        ms,
        paid,
    )
    &&& roots[0] == spec_started_root(ctx.winners_ledger, now)
    &&& ms[0] == payout_accounts(ctx)
    &&& root_n.batches_processed < u32::MAX
    &&& if root_b.paid_count == root_b.winners_count {
        let root_c = WinnersLedger { settlement_completed_at_unix: now, ..root_b };
        let fee = spec_service_fee(ctx.giveaway.total_payout_lamports, ctx.giveaway.service_fee_bps);
        &&& ctx1.winners_ledger == root_c
        &&& payout_accounts(ctx1) == spec_settle_tail_accounts(
            ctx.vault.key@,
            ctx.authority.key@,
            ctx.creator.key@,
            fee,
            m_n,
        )
        &&& ctx1.giveaway == (Giveaway { status: GiveawayStatus::Settled, settled: true, ..g0 })
        &&& events == paid_events + spec_settle_tail_events(
            g0,
            ctx.giveaway_key@,
            ctx.vault.key@,
            ctx.authority.key@,
            ctx.creator.key@,
            root_c,
            m_n,
            now,
        )
    } else {
        &&& ctx1.winners_ledger == root_b
        &&& payout_accounts(ctx1) == m_n
        &&& ctx1.giveaway == g0
        &&& events == paid_events
    }
}

/// A batch that began succeeds along some handled-winner trace.
pub open spec fn spec_payout_run(
    ctx: SettlePayoutBatch,
    program_id: Seq<u8>,
    batch_index: u32,
    winners: Seq<WinnerProof>,
    now: i64,
    ctx1: SettlePayoutBatch,
    events: Seq<GiveawayEventView>,
) -> bool {
    exists|roots: Seq<WinnersLedger>, ms: Seq<PayoutAccounts>, paid: Seq<bool>|
        #[trigger] spec_payout_run_along(
            ctx,
            program_id,
            batch_index,
            winners,
            now,
            ctx1,
            events,
            roots,
            ms,
            paid,
        )
}

/// Pays a batch of winners from the vault. Each winner's participant
/// account and wallet are checked, the winner's candidate key must be within
/// the locked threshold, and a winner already paid under this version is
/// skipped. The batch that pays the last winner also pays the service fee,
/// refunds the rest of the vault to the creator and settles the giveaway.
pub fn process(
    ctx: &mut SettlePayoutBatch,
    program_id: &Pubkey,
    batch_index: u32,
    winners: Vec<WinnerProof>,
    now: i64,
) -> (result: Result<Vec<GiveawayEvent>, GiveawayError>)
    ensures
        result is Err ==> *final(ctx) == *old(ctx),
        old(ctx).giveaway.winners_locked ==> final(ctx).giveaway.winners_locked,
        final(ctx).winners_ledger.recompute_version == old(ctx).winners_ledger.recompute_version,
        spec_payout_start(*old(ctx), winners@.len() as int) matches PayoutStart::Fail(e) ==> result
            == Err::<Vec<GiveawayEvent>, _>(e),
        spec_payout_start(*old(ctx), winners@.len() as int) is AlreadySettled ==> (result matches Ok(
            events,
        ) && events@.len() == 0 && *final(ctx) == *old(ctx)),
        spec_payout_start(*old(ctx), winners@.len() as int) is Run ==> {
            &&& result matches Err(e) ==> spec_payout_run_fails(
                *old(ctx),
                program_id@,
                winners@,
                now,
                e,
            )
            &&& result matches Ok(events) ==> spec_payout_run(
                *old(ctx),
                program_id@,
                batch_index,
                winners@,
                now,
                *final(ctx),
                events_view(events@),
            ) && final(ctx).config == old(ctx).config && final(ctx).giveaway_key
                == old(ctx).giveaway_key && final(ctx).winners_ledger_key
                == old(ctx).winners_ledger_key
        },
{
    if !ctx.giveaway.winners_computed {
        return Err(GiveawayError::WinnersNotComputed);
    }
    if !ctx.giveaway.winners_locked {
        return Err(GiveawayError::WinnersNotLocked);
    }
    if !pubkey_eq(&ctx.vault.key, &ctx.giveaway.vault) {
        return Err(GiveawayError::InvalidAccount);
    }
    if !pubkey_eq(&ctx.winners_ledger.giveaway, &ctx.giveaway_key) {
        return Err(GiveawayError::InvalidAccount);
    }
    if !ctx.winners_ledger.locked {
        return Err(GiveawayError::WinnersNotLocked);
    }
    if !pubkey_eq(&ctx.authority.key, &ctx.config.authority) {
        return Err(GiveawayError::Unauthorized);
    }
    if !pubkey_eq(&ctx.creator.key, &ctx.giveaway.creator) {
        return Err(GiveawayError::CreatorMismatch);
    }
    if ctx.giveaway.settled {
        return Ok(Vec::new());
    }
    if winners.len() == 0 || winners.len() > MAX_WINNERS_PER_BATCH {
        return Err(GiveawayError::InvalidBatch);
    }
    if ctx.winners_ledger.winners_count == 0 {
        return Err(GiveawayError::NoEligibleParticipants);
    }
    if ctx.remaining_accounts.len() < winners.len() * 2 {
        return Err(GiveawayError::InvalidAccount);
    }
    let ghost ctx0 = *old(ctx);
    let mut work = SettlePayoutBatch {
        config: ctx.config,
        giveaway_key: ctx.giveaway_key,
        giveaway: ctx.giveaway,
        vault: ctx.vault,
        winners_ledger_key: ctx.winners_ledger_key,
        winners_ledger: ctx.winners_ledger,
        authority: ctx.authority,
        creator: ctx.creator,
        remaining_accounts: copy_accounts(&ctx.remaining_accounts),
    };
    work.winners_ledger.start_settlement(now);
    work.giveaway.begin_settlement(now);
    let ghost g0 = work.giveaway;
    let ghost m0 = payout_accounts(work);
    let mut events: Vec<GiveawayEvent> = Vec::new();
    let ghost mut roots: Seq<WinnersLedger> = seq![work.winners_ledger];
    let ghost mut ms: Seq<PayoutAccounts> = seq![m0];
    let ghost mut paid: Seq<bool> = Seq::empty();
    let mut i: usize = 0;
    assert(events_view(events@) =~= Seq::<GiveawayEventView>::empty());
    while i < winners.len()
        invariant
            i <= winners@.len(),
            ctx0 == *old(ctx),
            *ctx == *old(ctx),
            spec_payout_start(ctx0, winners@.len() as int) is Run,
            winners@.len() <= MAX_WINNERS_PER_BATCH,
            work.remaining_accounts@.len() >= winners@.len() * 2,
            work.giveaway == g0,
            g0 == spec_started_giveaway(ctx0.giveaway, now),
            m0 == payout_accounts(ctx0),
            work.config == ctx0.config,
            work.giveaway_key == ctx0.giveaway_key,
            work.winners_ledger_key == ctx0.winners_ledger_key,
            work.vault.key == ctx0.vault.key,
            work.authority.key == ctx0.authority.key,
            work.creator.key == ctx0.creator.key,
            spec_payouts(
                program_id@,
                ctx0.giveaway_key@,
                ctx0.vault.key@,
                winners@,
                i as int,
                now,
                roots,
                ms,
                paid,
            ),
            roots[0] == spec_started_root(ctx0.winners_ledger, now),
            ms[0] == m0,
            roots[i as int] == work.winners_ledger,
            work.winners_ledger.recompute_version == ctx0.winners_ledger.recompute_version,
            ms[i as int] == payout_accounts(work),
            events_view(events@) == spec_paid_events(
                ctx0.giveaway.id,
                ctx0.giveaway_key@,
                batch_index,
                winners@,
                paid,
                now,
            ),
        decreases winners@.len() - i,
    {
        let ghost root_i = work.winners_ledger;
        let ghost m_i = payout_accounts(work);
        let entry = &winners[i];
        let was_paid = match pay_winner(&mut work, program_id, entry, i, now) {
            Ok(p) => p,
            Err(e) => {
                assert(spec_payouts(
                    program_id@,
                    ctx0.giveaway_key@,
                    ctx0.vault.key@,
                    winners@,
                    i as int,
                    now,
                    roots,
                    ms,
                    paid,
                ));
                return Err(e);
            },
        };
        if was_paid {
            events.push(
                GiveawayEvent::WinnerPaid {
                    giveaway_id: work.giveaway.id,
                    giveaway: pubkey_to_string(&work.giveaway_key),
                    winner: pubkey_to_string(&entry.winner),
                    amount_lamports: entry.amount,
                    batch_index,
                    winner_index: entry.winner_index,
                    timestamp: now,
                },
            );
        }
        proof {
            lemma_payouts_extend(
                program_id@,
                ctx0.giveaway_key@,
                ctx0.vault.key@,
                winners@,
                i as int,
                now,
                roots,
                ms,
                paid,
                work.winners_ledger,
                payout_accounts(work),
                was_paid,
            );
            lemma_paid_events_push(
                ctx0.giveaway.id,
                ctx0.giveaway_key@,
                batch_index,
                winners@,
                paid,
                was_paid,
                now,
            );
            roots = roots.push(work.winners_ledger);
            ms = ms.push(payout_accounts(work));
            paid = paid.push(was_paid);
            assert(events_view(events@) =~= spec_paid_events(
                ctx0.giveaway.id,
                ctx0.giveaway_key@,
                batch_index,
                winners@,
                paid,
                now,
            ));
        }
        i = i + 1;
    }
    let ghost root_n = work.winners_ledger;
    let ghost m_n = payout_accounts(work);
    match work.winners_ledger.mark_batch_processed() {
        Ok(()) => {},
        Err(e) => {
            assert(spec_payouts(
                program_id@,
                ctx0.giveaway_key@,
                ctx0.vault.key@,
                winners@,
                winners@.len() as int,
                now,
                roots,
                ms,
                paid,
            ));
            return Err(e);
        },
    }
    if work.winners_ledger.is_settlement_complete() {
        work.winners_ledger.complete_settlement(now);
        let ghost paid_events = events@;
        let tail = match settle_tail(&mut work, now) {
            Ok(t) => t,
            Err(e) => {
                assert(spec_payouts(
                    program_id@,
                    ctx0.giveaway_key@,
                    ctx0.vault.key@,
                    winners@,
                    winners@.len() as int,
                    now,
                    roots,
                    ms,
                    paid,
                ));
                return Err(e);
            },
        };
        let mut tail = tail;
        let ghost tail_events = tail@;
        events.append(&mut tail);
        assert(events_view(events@) =~= events_view(paid_events) + events_view(tail_events));
    }
    proof {
        assert(spec_payout_run_along(
            ctx0,
            program_id@,
            batch_index,
            winners@,
            now,
            work,
            events_view(events@),
            roots,
            ms,
            paid,
        ));
    }
    *ctx = work;
    Ok(events)
}

} // verus!
