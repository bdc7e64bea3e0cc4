//! Provider reveal upload: the configured authority uploads a batch of
//! plaintext reveals of attested participants; each must open the
//! participant's commitment, and its digest is folded into the giveaway's
//! entropy aggregate.
use vstd::prelude::*;
use vstd::string::StringSliceAdditionalSpecFns;
use vstd::utf8::encode_utf8;
use crate::address::{pubkey_to_string, spec_pubkey_base58};
use crate::bytes::{pubkey_eq, Pubkey};
use crate::constants::{MAX_LUCKY_WORDS_LEN, MAX_REVEALS_PER_BATCH, MAX_SALT_LEN};
use crate::error::GiveawayError;
use crate::events::{events_view, GiveawayEvent, GiveawayEventView};
use crate::hashing::{hex_encode, spec_hex_lower, spec_sha256};
use crate::state::config::Config;
use crate::state::giveaway::Giveaway;
use crate::state::participant::Participant;
use crate::utils::account::{
    copy_accounts, find_account, spec_first_account, spec_store_entry, store_entry,
    ParticipantAccountInfo,
};
use crate::utils::crypto::{
    build_reveal_plaintext, compute_reveal_digest, lemma_xor_all_bytes, spec_reveal_digest,
    spec_reveal_plaintext, spec_xor_all_bytes, verify_reveal, xor_reveal_digests,
};

verus! {

/// One uploaded reveal: the participant account it opens, and the lucky
/// words and salt behind its commitment.
pub struct RevealData {
    pub participant: Pubkey,
    pub lucky_words: String,
    pub salt: Vec<u8>,
}

/// Accounts of a reveal upload; the participant accounts of the batch are
/// rewritten in place.
pub struct UploadReveals {
    pub config: Config,
    pub giveaway_key: Pubkey,
    pub giveaway: Giveaway,
    /// The signing provider authority.
    pub authority: Pubkey,
    pub remaining_accounts: Vec<ParticipantAccountInfo>,
}

/// The canonical plaintext of a reveal.
pub open spec fn spec_reveal_text(r: RevealData) -> Seq<u8> {
    spec_reveal_plaintext(encode_utf8(r.lucky_words@), r.salt@)
}

/// The entry a reveal opens: the one in the first account at its key.
pub open spec fn spec_target_entry(infos: Seq<ParticipantAccountInfo>, r: RevealData) -> Participant {
    infos[spec_first_account(infos, r.participant@)->0].participant->0
}

/// The error, if any, of a reveal against the accounts as given: its parts
/// fit, its account is listed, writable and decodable, of this giveaway,
/// attested, neither disqualified nor already included, and the reveal
/// opens the commitment.
pub open spec fn spec_reveal_error(
    giveaway_key: Seq<u8>,
    infos: Seq<ParticipantAccountInfo>,
    r: RevealData,
) -> Option<GiveawayError> {
    let words = encode_utf8(r.lucky_words@);
    if words.len() > MAX_LUCKY_WORDS_LEN || r.salt@.len() > MAX_SALT_LEN {
        Some(GiveawayError::TextTooLong)
    } else if spec_first_account(infos, r.participant@) is None {
        Some(GiveawayError::InvalidAccount)
    } else {
        let info = infos[spec_first_account(infos, r.participant@)->0];
        let q = info.participant->0;
        if !info.account.is_writable {
            Some(GiveawayError::AccountNotWritable)
        } else if info.participant is None {
            Some(GiveawayError::AccountNotInitialized)
        } else if q.giveaway@ != giveaway_key {
            Some(GiveawayError::InvalidAccount)
        } else if q.reveal_included {
            Some(GiveawayError::RevealAlreadyIncluded)
        } else if q.disqualified {
            Some(GiveawayError::AlreadyDisqualified)
        } else if !q.attested_uploaded {
            Some(GiveawayError::NotAttested)
        } else if spec_sha256(spec_reveal_text(r)) != q.commitment_hash@ {
            Some(GiveawayError::InvalidReveal)
        } else {
            None
        }
    }
}

/// Reveal `k` names a participant account an earlier reveal named.
pub open spec fn spec_repeats(reveals: Seq<RevealData>, k: int) -> bool {
    exists|j: int| 0 <= j < k && (#[trigger] reveals[j]).participant@ == reveals[k].participant@
}

/// The first error among reveals `k..`, if any.
pub open spec fn spec_batch_error_from(
    giveaway_key: Seq<u8>,
    infos: Seq<ParticipantAccountInfo>,
    reveals: Seq<RevealData>,
    k: int,
) -> Option<GiveawayError>
    decreases reveals.len() - k,
{
    if k < 0 || k >= reveals.len() {
        None
    } else if spec_repeats(reveals, k) {
        Some(GiveawayError::InvalidReveal)
    } else if spec_reveal_error(giveaway_key, infos, reveals[k]) is Some {
        spec_reveal_error(giveaway_key, infos, reveals[k])
    } else {
        spec_batch_error_from(giveaway_key, infos, reveals, k + 1)
    }
}

/// The entry a verified reveal leaves: included, updated at `now`.
pub open spec fn spec_included(q: Participant, now: i64) -> Participant {
    Participant { reveal_included: true, last_updated_unix: now, ..q }
}

/// The accounts after the first `k` reveals were stored.
pub open spec fn spec_stored(
    infos: Seq<ParticipantAccountInfo>,
    reveals: Seq<RevealData>,
    now: i64,
    k: int,
) -> Seq<ParticipantAccountInfo>
    decreases k,
{
    if k <= 0 {
        infos
    } else {
        spec_store_entry(
            spec_stored(infos, reveals, now, k - 1),
            reveals[k - 1].participant@,
            spec_included(spec_target_entry(infos, reveals[k - 1]), now),
        )
    }
}

/// The digest of reveal `k`.
pub open spec fn spec_batch_digest(
    infos: Seq<ParticipantAccountInfo>,
    reveals: Seq<RevealData>,
    k: int,
) -> Seq<u8> {
    spec_reveal_digest(spec_target_entry(infos, reveals[k]).wallet@, spec_reveal_text(reveals[k]))
}

/// The digests of the whole batch, in order.
pub open spec fn spec_batch_digests(
    infos: Seq<ParticipantAccountInfo>,
    reveals: Seq<RevealData>,
) -> Seq<Seq<u8>> {
    Seq::new(reveals.len(), |k: int| spec_batch_digest(infos, reveals, k))
}

/// The first check of an upload at `now` over `n` reveals, if any fails.
pub open spec fn spec_upload_start_error(ctx: UploadReveals, n: int, now: i64) -> Option<
    GiveawayError,
> {
    let g = ctx.giveaway;
    if g.settled {
        Some(GiveawayError::GiveawayAlreadySettled)
    } else if ctx.authority@ != ctx.config.authority@ {
        Some(GiveawayError::Unauthorized)
    } else if n == 0 || n > MAX_REVEALS_PER_BATCH {
        Some(GiveawayError::InvalidInstruction)
    } else if !(now >= g.upload_start_unix || (g.participants_count > 0 && g.attested_count
        == g.participants_count)) {
        Some(GiveawayError::UploadWindowNotStarted)
    } else if g.winners_computed {
        Some(GiveawayError::WinnersLocked)
    } else {
        None
    }
}

/// The error, if any, of an upload of `reveals` at `now`.
pub open spec fn spec_upload_error(ctx: UploadReveals, reveals: Seq<RevealData>, now: i64) -> Option<
    GiveawayError,
> {
    if spec_upload_start_error(ctx, reveals.len() as int, now) is Some {
        spec_upload_start_error(ctx, reveals.len() as int, now)
    } else if spec_batch_error_from(ctx.giveaway_key@, ctx.remaining_accounts@, reveals, 0) is Some {
        spec_batch_error_from(ctx.giveaway_key@, ctx.remaining_accounts@, reveals, 0)
    } else if ctx.giveaway.provider_uploaded_count + reveals.len() > u64::MAX {
        Some(GiveawayError::MathOverflow)
    } else {
        None
    }
}

proof fn lemma_stored_keys(
    infos: Seq<ParticipantAccountInfo>,
    reveals: Seq<RevealData>,
    now: i64,
    k: int,
)
    requires
        0 <= k <= reveals.len(),
    ensures
        spec_stored(infos, reveals, now, k).len() == infos.len(),
        forall|j: int|
            0 <= j < infos.len() ==> (#[trigger] spec_stored(infos, reveals, now, k)[j]).account
                == infos[j].account,
        forall|j: int|
            0 <= j < infos.len() && !(exists|i: int|
                0 <= i < k && (#[trigger] reveals[i]).participant@ == infos[j].account.key@)
                ==> #[trigger] spec_stored(infos, reveals, now, k)[j] == infos[j],
    decreases k,
{
    if k > 0 {
        lemma_stored_keys(infos, reveals, now, k - 1);
        let prev = spec_stored(infos, reveals, now, k - 1);
        assert forall|j: int| 0 <= j < infos.len() && !(exists|i: int|
            0 <= i < k && (#[trigger] reveals[i]).participant@
                == infos[j].account.key@) implies #[trigger] spec_stored(infos, reveals, now, k)[j]
            == infos[j] by {
            assert(!(exists|i: int|
                0 <= i < k - 1 && (#[trigger] reveals[i]).participant@ == infos[j].account.key@));
            assert(reveals[k - 1].participant@ != infos[j].account.key@);
        }
    }
}

proof fn lemma_first_account_kept(
    infos: Seq<ParticipantAccountInfo>,
    outs: Seq<ParticipantAccountInfo>,
    key: Seq<u8>,
    i: int,
)
    requires
        outs.len() == infos.len(),
        forall|j: int| 0 <= j < infos.len() ==> outs[j].account == infos[j].account,
    ensures
        crate::utils::account::spec_first_account_from(outs, key, i)
            == crate::utils::account::spec_first_account_from(infos, key, i),
    decreases infos.len() - i,
{
    if 0 <= i < infos.len() {
        lemma_first_account_kept(infos, outs, key, i + 1);
    }
}

proof fn lemma_first_account_found(infos: Seq<ParticipantAccountInfo>, key: Seq<u8>, i: int)
    requires
        crate::utils::account::spec_first_account_from(infos, key, i) matches Some(j) && true,
    ensures
        crate::utils::account::spec_first_account_from(infos, key, i) matches Some(j) && 0 <= j
            < infos.len() && infos[j].account.key@ == key,
    decreases infos.len() - i,
{
    if 0 <= i < infos.len() && infos[i].account.key@ != key {
        lemma_first_account_found(infos, key, i + 1);
    }
}

fn check_and_include(
    giveaway_key: &Pubkey,
    accounts: &mut Vec<ParticipantAccountInfo>,
    reveal: &RevealData,
    now: i64,
) -> (result: Result<[u8; 32], GiveawayError>)
    ensures
        spec_reveal_error(giveaway_key@, old(accounts)@, *reveal) matches Some(e) ==> result
            == Err::<[u8; 32], _>(e),
        spec_reveal_error(giveaway_key@, old(accounts)@, *reveal) is None ==> (result matches Ok(
            digest,
        ) && digest@ == spec_reveal_digest(
            spec_target_entry(old(accounts)@, *reveal).wallet@,
            spec_reveal_text(*reveal),
        ) && final(accounts)@ == spec_store_entry(
            old(accounts)@,
            reveal.participant@,
            spec_included(spec_target_entry(old(accounts)@, *reveal), now),
        )),
{
    let words = reveal.lucky_words.as_str();
    if !(words.as_bytes().len() <= MAX_LUCKY_WORDS_LEN && reveal.salt.len() <= MAX_SALT_LEN) {
        return Err(GiveawayError::TextTooLong);
    }
    let index = match find_account(accounts, &reveal.participant) {
        Some(j) => j,
        None => {
            return Err(GiveawayError::InvalidAccount);
        },
    };
    proof {
        lemma_first_account_found(accounts@, reveal.participant@, 0);
    }
    if !accounts[index].account.is_writable {
        return Err(GiveawayError::AccountNotWritable);
    }
    let mut participant = match &accounts[index].participant {
        Some(p) => p.duplicate(),
        None => {
            return Err(GiveawayError::AccountNotInitialized);
        },
    };
    if !pubkey_eq(&participant.giveaway, giveaway_key) {
        return Err(GiveawayError::InvalidAccount);
    }
    if participant.reveal_included {
        return Err(GiveawayError::RevealAlreadyIncluded);
    }
    if participant.disqualified {
        return Err(GiveawayError::AlreadyDisqualified);
    }
    if !participant.attested_uploaded {
        return Err(GiveawayError::NotAttested);
    }
    if !verify_reveal(&participant.commitment_hash, words, reveal.salt.as_slice())? {
        return Err(GiveawayError::InvalidReveal);
    }
    let plaintext = build_reveal_plaintext(words, reveal.salt.as_slice())?;
    let digest = compute_reveal_digest(&participant.wallet, plaintext.as_slice());
    participant.mark_reveal_included(now);
    store_entry(accounts, &reveal.participant, &participant);
    Ok(digest)
}

/// Uploads a batch of reveals: each opens its attested participant's
/// commitment and is marked included; the giveaway counts the batch and
/// folds the reveal digests into its aggregate.
pub fn process(ctx: &mut UploadReveals, reveals: Vec<RevealData>, now: i64) -> (result: Result<
    Vec<GiveawayEvent>,
    GiveawayError,
>)
    ensures
        result is Err ==> *final(ctx) == *old(ctx),
        old(ctx).giveaway.winners_locked ==> final(ctx).giveaway.winners_locked,
        spec_upload_error(*old(ctx), reveals@, now) matches Some(e) ==> result == Err::<
            Vec<GiveawayEvent>,
            _,
        >(e),
        spec_upload_error(*old(ctx), reveals@, now) is None ==> (result matches Ok(events) && {
            let g = old(ctx).giveaway;
            let infos = old(ctx).remaining_accounts@;
            let aggregate = spec_xor_all_bytes(
                g.poc_aggregate_hash@,
                spec_batch_digests(infos, reveals@),
            );
            let count = (g.provider_uploaded_count + reveals@.len()) as u64;
            let complete = g.attested_count > 0 && count >= g.attested_count;
            &&& final(ctx).giveaway.poc_aggregate_hash@ == aggregate
            &&& final(ctx).giveaway == (Giveaway {
                provider_uploaded_count: count,
                poc_aggregate_hash: final(ctx).giveaway.poc_aggregate_hash,
                uploads_complete: complete,
                ..g
            })
            &&& final(ctx).remaining_accounts@ == spec_stored(
                infos,
                reveals@,
                now,
                reveals@.len() as int,
            )
            &&& final(ctx).config == old(ctx).config
            &&& final(ctx).giveaway_key == old(ctx).giveaway_key
            &&& final(ctx).authority == old(ctx).authority
            &&& events_view(events@) == seq![
                GiveawayEventView::RevealsUploaded {
                    giveaway_id: g.id,
                    giveaway: spec_pubkey_base58(old(ctx).giveaway_key@),
                    authority: spec_pubkey_base58(old(ctx).authority@),
                    batch_size: reveals@.len() as u32,
                    total_reveals_uploaded: count,
                    total_attested: g.attested_count,
                    aggregate_hash: spec_hex_lower(aggregate),
                    uploads_complete: complete,
                    timestamp: now,
                },
            ]
        }),
{
    if ctx.giveaway.settled {
        return Err(GiveawayError::GiveawayAlreadySettled);
    }
    if !pubkey_eq(&ctx.authority, &ctx.config.authority) {
        return Err(GiveawayError::Unauthorized);
    }
    if reveals.len() == 0 || reveals.len() > MAX_REVEALS_PER_BATCH {
        return Err(GiveawayError::InvalidInstruction);
    }
    let upload_started = now >= ctx.giveaway.upload_start_unix;
    let all_attested = ctx.giveaway.participants_count > 0 && ctx.giveaway.attested_count
        == ctx.giveaway.participants_count;
    if !(upload_started || all_attested) {
        return Err(GiveawayError::UploadWindowNotStarted);
    }
    if ctx.giveaway.winners_computed {
        return Err(GiveawayError::WinnersLocked);
    }
    let ghost infos = ctx.remaining_accounts@;
    let ghost gk = ctx.giveaway_key@;
    let mut accounts = copy_accounts(&ctx.remaining_accounts);
    let mut digests: Vec<[u8; 32]> = Vec::new();
    let mut seen: Vec<Pubkey> = Vec::new();
    let mut k: usize = 0;
    while k < reveals.len()
        invariant
            k <= reveals@.len(),
            reveals@.len() <= MAX_REVEALS_PER_BATCH,
            infos == old(ctx).remaining_accounts@,
            gk == old(ctx).giveaway_key@,
            *ctx == *old(ctx),
            spec_upload_start_error(*old(ctx), reveals@.len() as int, now) is None,
            spec_batch_error_from(gk, infos, reveals@, 0) == spec_batch_error_from(
                gk,
                infos,
                reveals@,
                k as int,
            ),
            accounts@ == spec_stored(infos, reveals@, now, k as int),
            seen@.len() == k,
            forall|j: int| 0 <= j < k ==> (#[trigger] seen@[j])@ == reveals@[j].participant@,
            digests@.len() == k,
            forall|j: int|
                0 <= j < k ==> (#[trigger] digests@[j])@ == spec_batch_digest(infos, reveals@, j),
        decreases reveals@.len() - k,
    {
        let reveal = &reveals[k];
        let mut repeated = false;
        let mut j: usize = 0;
        while j < seen.len()
            invariant
                j <= seen@.len(),
                seen@.len() == k,
                k < reveals@.len(),
                *reveal == reveals@[k as int],
                forall|i: int| 0 <= i < k ==> (#[trigger] seen@[i])@ == reveals@[i].participant@,
                repeated == exists|i: int|
                    0 <= i < j && (#[trigger] reveals@[i]).participant@ == reveals@[k as int].participant@,
            decreases seen@.len() - j,
        {
            assert(seen@[j as int]@ == reveals@[j as int].participant@);
            if pubkey_eq(&seen[j], &reveal.participant) {
                repeated = true;
            }
            j = j + 1;
        }
        if repeated {
            return Err(GiveawayError::InvalidReveal);
        }
        proof {
            lemma_stored_keys(infos, reveals@, now, k as int);
            let cur = accounts@;
            lemma_first_account_kept(infos, cur, reveal.participant@, 0);
            let key = reveal.participant@;
            if let Some(idx) = crate::utils::account::spec_first_account_from(infos, key, 0) {
                lemma_first_account_found(infos, key, 0);
                assert(!(exists|i: int| 0 <= i < k && (#[trigger] reveals@[i]).participant@
                    == infos[idx].account.key@));
                assert(cur[idx] == infos[idx]);
                assert(spec_target_entry(cur, *reveal) == spec_target_entry(infos, *reveal));
            }
            assert(spec_reveal_error(gk, cur, *reveal) == spec_reveal_error(gk, infos, *reveal));
        }
        let digest = check_and_include(&ctx.giveaway_key, &mut accounts, reveal, now)?;
        digests.push(digest);
        seen.push(reveal.participant);
        k = k + 1;
    }
    let ghost all = digests@;
    let aggregate = xor_reveal_digests(ctx.giveaway.poc_aggregate_hash, digests.as_slice());
    proof {
        lemma_xor_all_bytes(old(ctx).giveaway.poc_aggregate_hash@, all);
        assert(all.map_values(|d: [u8; 32]| d@) =~= spec_batch_digests(infos, reveals@));
    }
    let mut giveaway = ctx.giveaway;
    giveaway.add_uploaded_reveals(reveals.len() as u64, aggregate)?;
    ctx.giveaway = giveaway;
    ctx.remaining_accounts = accounts;
    let event = GiveawayEvent::RevealsUploaded {
        giveaway_id: ctx.giveaway.id,
        giveaway: pubkey_to_string(&ctx.giveaway_key),
        authority: pubkey_to_string(&ctx.authority),
        batch_size: reveals.len() as u32,
        total_reveals_uploaded: ctx.giveaway.provider_uploaded_count,
        total_attested: ctx.giveaway.attested_count,
        aggregate_hash: hex_encode(aggregate.as_slice()),
        uploads_complete: ctx.giveaway.uploads_complete,
        timestamp: now,
    };
    let events = vec![event];
    assert(events_view(events@) =~= seq![events@[0]@]);
    Ok(events)
}

/// A reveal is taken only from an attested entry: a reveal passes its checks
/// only if its entry is found, of this giveaway, attested, not disqualified,
/// not yet included, and the reveal opens its commitment; an entry that
/// passes every earlier check but never attested answers `NotAttested`.
pub proof fn lemma_reveal_needs_attested_entry(
    giveaway_key: Seq<u8>,
    infos: Seq<ParticipantAccountInfo>,
    r: RevealData,
)
    ensures
        spec_reveal_error(giveaway_key, infos, r) is None ==> {
            let q = spec_target_entry(infos, r);
            &&& spec_first_account(infos, r.participant@) is Some
            &&& infos[spec_first_account(infos, r.participant@)->0].participant is Some
            &&& q.attested_uploaded
            &&& !q.disqualified
            &&& !q.reveal_included
            &&& q.giveaway@ == giveaway_key
            &&& spec_sha256(
                encode_utf8(r.lucky_words@) + seq![0x1fu8] + r.salt@,
            ) == q.commitment_hash@
        },
        ({
            let found = spec_first_account(infos, r.participant@);
            let q = spec_target_entry(infos, r);
            &&& encode_utf8(r.lucky_words@).len() <= 32
            &&& r.salt@.len() <= 16
            &&& found is Some
            &&& infos[found->0].account.is_writable
            &&& infos[found->0].participant is Some
            &&& q.giveaway@ == giveaway_key
            &&& !q.reveal_included
            &&& !q.disqualified
            &&& !q.attested_uploaded
        }) ==> spec_reveal_error(giveaway_key, infos, r) == Some(GiveawayError::NotAttested),
{
}

proof fn lemma_batch_ok_means_each_reveal_ok(
    giveaway_key: Seq<u8>,
    infos: Seq<ParticipantAccountInfo>,
    reveals: Seq<RevealData>,
    k: int,
)
    requires
        0 <= k,
        spec_batch_error_from(giveaway_key, infos, reveals, k) is None,
    ensures
        forall|j: int|
            k <= j < reveals.len() ==> spec_reveal_error(giveaway_key, infos, #[trigger] reveals[j])
                is None,
    decreases reveals.len() - k,
{
    if k < reveals.len() {
        lemma_batch_ok_means_each_reveal_ok(giveaway_key, infos, reveals, k + 1);
    }
}

/// An upload succeeds only if every entry it names is attested: when an
/// upload is accepted, each reveal's entry is attested, not disqualified,
/// not yet included, and opened by the reveal.
pub proof fn lemma_upload_needs_attested_entries(
    ctx: UploadReveals,
    reveals: Seq<RevealData>,
    now: i64,
)
    ensures
        spec_upload_error(ctx, reveals, now) is None ==> forall|k: int|
            0 <= k < reveals.len() ==> {
                let q = #[trigger] spec_target_entry(ctx.remaining_accounts@, reveals[k]);
                &&& q.attested_uploaded
                &&& !q.disqualified
                &&& !q.reveal_included
                &&& spec_sha256(
                    encode_utf8(reveals[k].lucky_words@) + seq![0x1fu8] + reveals[k].salt@,
                ) == q.commitment_hash@
            },
{
    if spec_upload_error(ctx, reveals, now) is None {
        lemma_batch_ok_means_each_reveal_ok(ctx.giveaway_key@, ctx.remaining_accounts@, reveals, 0);
        assert forall|k: int| 0 <= k < reveals.len() implies ({
            let q = #[trigger] spec_target_entry(ctx.remaining_accounts@, reveals[k]);
            &&& q.attested_uploaded
            &&& !q.disqualified
            &&& !q.reveal_included
            &&& spec_sha256(
                encode_utf8(reveals[k].lucky_words@) + seq![0x1fu8] + reveals[k].salt@,
            ) == q.commitment_hash@
        }) by {
            lemma_reveal_needs_attested_entry(
                ctx.giveaway_key@,
                ctx.remaining_accounts@,
                reveals[k],
            );
        }
    }
}

/// Only the configured authority uploads, one to fifty reveals at a time,
/// once the upload window opened or every participant attested, and only
/// before the winners are computed.
pub proof fn lemma_upload_only_by_authority_in_window(
    ctx: UploadReveals,
    reveals: Seq<RevealData>,
    now: i64,
)
    ensures
        spec_upload_error(ctx, reveals, now) is None ==> {
            &&& !ctx.giveaway.settled
            &&& ctx.authority@ == ctx.config.authority@
            &&& 1 <= reveals.len() <= 50
            &&& (now >= ctx.giveaway.upload_start_unix || (ctx.giveaway.participants_count > 0
                && ctx.giveaway.attested_count == ctx.giveaway.participants_count))
            &&& !ctx.giveaway.winners_computed
        },
{
}

} // verus!
