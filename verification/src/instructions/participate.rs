//! Entry submission: during the participation window a wallet submits its
//! proof text and proof-of-chance commitment, or replaces them.
use vstd::prelude::*;
use vstd::string::StringSliceAdditionalSpecFns;
use vstd::utf8::encode_utf8;
use crate::address::{pubkey_to_string, spec_pubkey_base58};
use crate::bytes::{is_all_zero, le64, zero_bytes, Pubkey};
use crate::constants::{MAX_PARTICIPANTS, MAX_PROOF_TEXT_LEN};
use crate::error::GiveawayError;
use crate::events::{events_view, GiveawayEvent, GiveawayEventView};
use crate::hashing::{hex_encode, spec_hex_lower};
use crate::state::config::Config;
use crate::state::giveaway::Giveaway;
use crate::state::participant::Participant;
use crate::utils::validation::{validate_commitment_hash, validate_string_length};

verus! {

/// Accounts of the entry submission. A new entry's account arrives zeroed.
pub struct Participate {
    pub config: Config,
    pub giveaway_key: Pubkey,
    pub giveaway: Giveaway,
    pub participant_account_key: Pubkey,
    pub participant_account: Participant,
    /// The signing participant wallet.
    pub participant: Pubkey,
}

/// The first check of a submission at `now` that fails, if any.
pub open spec fn spec_participate_error(
    ctx: Participate,
    commitment_hash: Seq<u8>,
    proof_text: Seq<char>,
    now: i64,
) -> Option<GiveawayError> {
    let g = ctx.giveaway;
    if g.settled {
        Some(GiveawayError::GiveawayAlreadySettled)
    } else if !(now >= g.active_start_unix && now < g.active_deadline_unix) {
        Some(GiveawayError::ActiveWindowClosed)
    } else if encode_utf8(proof_text).len() > MAX_PROOF_TEXT_LEN {
        Some(GiveawayError::TextTooLong)
    } else if commitment_hash == zero_bytes(32) {
        Some(GiveawayError::InvalidInstruction)
    } else if ctx.participant_account.wallet@ == zero_bytes(32) && g.participants_count
        >= MAX_PARTICIPANTS {
        Some(GiveawayError::TooManyParticipants)
    } else {
        None
    }
}

/// `q` is a fresh entry of `giveaway` for `wallet` with canonical index
/// `index`, created at `now`.
pub open spec fn spec_fresh_entry(
    q: Participant,
    giveaway: Pubkey,
    wallet: Pubkey,
    commitment_hash: [u8; 32],
    proof_text: String,
    now: i64,
    index: u64,
) -> bool {
    &&& q.reserved@.subrange(0, 48) == zero_bytes(48)
    &&& le64(q.reserved@.subrange(48, 56)) == index
    &&& q.reserved@.subrange(56, 64) == zero_bytes(8)
    &&& q == Participant {
        giveaway,
        wallet,
        commitment_hash,
        proof_text,
        attested_uploaded: false,
        attested_at_unix: 0,
        reveal_included: false,
        disqualified: false,
        disqualification_reason: 0,
        disqualified_at_unix: 0,
        created_at_unix: now,
        last_updated_unix: now,
        reserved: q.reserved,
    }
}

/// Submits or replaces an entry. An account whose wallet is still the
/// default address is a new entry: it gets the next canonical index and the
/// giveaway counts it, up to `MAX_PARTICIPANTS` entries. An existing entry
/// has its commitment and proof text replaced.
pub fn process(
    ctx: &mut Participate,
    commitment_hash: [u8; 32],
    proof_text: String,
    now: i64,
) -> (result: Result<Vec<GiveawayEvent>, GiveawayError>)
    ensures
        result is Err ==> *final(ctx) == *old(ctx),
        old(ctx).giveaway.winners_locked ==> final(ctx).giveaway.winners_locked,
        spec_participate_error(*old(ctx), commitment_hash@, proof_text@, now) matches Some(e)
            ==> result == Err::<Vec<GiveawayEvent>, _>(e),
        spec_participate_error(*old(ctx), commitment_hash@, proof_text@, now) is None ==> (
        result matches Ok(events) && {
            let g = old(ctx).giveaway;
            let p = old(ctx).participant_account;
            let is_update = p.wallet@ != zero_bytes(32);
            &&& if is_update {
                &&& final(ctx).participant_account == (Participant {
                    commitment_hash,
                    proof_text,
                    last_updated_unix: now,
                    ..p
                })
                &&& final(ctx).giveaway == g
            } else {
                &&& spec_fresh_entry(
                    final(ctx).participant_account,
                    old(ctx).giveaway_key,
                    old(ctx).participant,
                    commitment_hash,
                    proof_text,
                    now,
                    g.participants_count,
                )
                &&& final(ctx).giveaway == (Giveaway {
                    participants_count: (g.participants_count + 1) as u64,
                    ..g
                })
            }
            &&& final(ctx).config == old(ctx).config
            &&& final(ctx).giveaway_key == old(ctx).giveaway_key
            &&& final(ctx).participant_account_key == old(ctx).participant_account_key
            &&& final(ctx).participant == old(ctx).participant
            &&& events_view(events@) == seq![
                GiveawayEventView::ParticipationSubmitted {
                    giveaway_id: g.id,
                    giveaway: spec_pubkey_base58(old(ctx).giveaway_key@),
                    participant: spec_pubkey_base58(old(ctx).participant@),
                    participant_account: spec_pubkey_base58(old(ctx).participant_account_key@),
                    commitment_hash: spec_hex_lower(commitment_hash@),
                    proof_text: proof_text@,
                    is_update,
                    timestamp: now,
                },
            ]
        }),
{
    if ctx.giveaway.settled {
        return Err(GiveawayError::GiveawayAlreadySettled);
    }
    if !ctx.giveaway.is_in_active_phase(now) {
        return Err(GiveawayError::ActiveWindowClosed);
    }
    validate_string_length(proof_text.as_str(), MAX_PROOF_TEXT_LEN)?;
    validate_commitment_hash(&commitment_hash)?;
    let is_update = !is_all_zero(ctx.participant_account.wallet.as_slice());
    if !is_update && ctx.giveaway.participants_count >= MAX_PARTICIPANTS {
        return Err(GiveawayError::TooManyParticipants);
    }
    let stored_text = proof_text.clone();
    if is_update {
        ctx.participant_account.update(commitment_hash, stored_text, now);
    } else {
        let giveaway_key = ctx.giveaway_key;
        let wallet = ctx.participant;
        let index = ctx.giveaway.participants_count;
        ctx.participant_account.initialize(
            giveaway_key,
            wallet,
            commitment_hash,
            stored_text,
            now,
            index,
        );
        ctx.giveaway.add_participant()?;
    }
    let event = GiveawayEvent::ParticipationSubmitted {
        giveaway_id: ctx.giveaway.id,
        giveaway: pubkey_to_string(&ctx.giveaway_key),
        participant: pubkey_to_string(&ctx.participant),
        participant_account: pubkey_to_string(&ctx.participant_account_key),
        commitment_hash: hex_encode(commitment_hash.as_slice()),
        proof_text,
        is_update,
        timestamp: now,
    };
    let events = vec![event];
    assert(events_view(events@) =~= seq![events@[0]@]);
    Ok(events)
}

/// Entries are taken only during the participation window: a submission
/// succeeds only when the giveaway is unsettled, `active_start_unix <= now
/// < active_deadline_unix`, the proof text fits, the commitment is not zero
/// and, for a new entry, fewer than `MAX_PARTICIPANTS` entries exist; outside
/// the window an unsettled giveaway answers `ActiveWindowClosed`.
pub proof fn lemma_entries_only_in_participation_window(
    ctx: Participate,
    commitment_hash: Seq<u8>,
    proof_text: Seq<char>,
    now: i64,
)
    ensures
        spec_participate_error(ctx, commitment_hash, proof_text, now) is None ==> {
            &&& !ctx.giveaway.settled
            &&& ctx.giveaway.active_start_unix <= now
            &&& now < ctx.giveaway.active_deadline_unix
            &&& encode_utf8(proof_text).len() <= 256
            &&& commitment_hash != Seq::new(32, |i: int| 0u8)
            &&& ctx.participant_account.wallet@ == Seq::new(32, |i: int| 0u8)
                ==> ctx.giveaway.participants_count < 4096
        },
        !ctx.giveaway.settled && !(ctx.giveaway.active_start_unix <= now
            && now < ctx.giveaway.active_deadline_unix) ==> spec_participate_error(
            ctx,
            commitment_hash,
            proof_text,
            now,
        ) == Some(GiveawayError::ActiveWindowClosed),
{
    assert(zero_bytes(32) =~= Seq::new(32, |i: int| 0u8));
}

} // verus!
