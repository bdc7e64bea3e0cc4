//! Creator disqualification of an entry, allowed only before the upload
//! window opens: once reveals can be made, removing entries would let the
//! creator game the draw.
use vstd::prelude::*;
use crate::address::{pubkey_to_string, spec_pubkey_base58};
use crate::bytes::{pubkey_eq, Pubkey};
use crate::error::GiveawayError;
use crate::events::{events_view, GiveawayEvent, GiveawayEventView};
use crate::state::config::Config;
use crate::state::giveaway::Giveaway;
use crate::state::participant::{spec_valid_reason_code, Participant};
use crate::utils::validation::validate_reason_code;

verus! {

/// Accounts of the disqualification.
pub struct DisqualifyParticipant {
    pub config: Config,
    pub giveaway_key: Pubkey,
    pub giveaway: Giveaway,
    pub participant_account_key: Pubkey,
    pub participant_account: Participant,
    /// The signing creator.
    pub creator: Pubkey,
}

/// The first check of a disqualification with `reason_code` at `now` that
/// fails, if any.
pub open spec fn spec_disqualify_error(ctx: DisqualifyParticipant, reason_code: u8, now: i64) -> Option<
    GiveawayError,
> {
    let g = ctx.giveaway;
    let p = ctx.participant_account;
    if g.settled {
        Some(GiveawayError::GiveawayAlreadySettled)
    } else if g.winners_locked {
        Some(GiveawayError::WinnersLocked)
    } else if p.giveaway@ != ctx.giveaway_key@ {
        Some(GiveawayError::InvalidAccount)
    } else if p.disqualified {
        Some(GiveawayError::AlreadyDisqualified)
    } else if ctx.creator@ != g.creator@ {
        Some(GiveawayError::CreatorMismatch)
    } else if !spec_valid_reason_code(reason_code) {
        Some(GiveawayError::InvalidReasonCode)
    } else if now >= g.upload_start_unix {
        Some(GiveawayError::InvalidInstruction)
    } else {
        None
    }
}

/// Disqualifies the entry. The giveaway's disqualification counter is
/// advanced when it can be; a saturated counter is left as it is.
pub fn process(ctx: &mut DisqualifyParticipant, reason_code: u8, now: i64) -> (result: Result<
    Vec<GiveawayEvent>,
    GiveawayError,
>)
    ensures
        result is Err ==> *final(ctx) == *old(ctx),
        old(ctx).giveaway.winners_locked ==> final(ctx).giveaway.winners_locked,
        spec_disqualify_error(*old(ctx), reason_code, now) matches Some(e) ==> result == Err::<
            Vec<GiveawayEvent>,
            _,
        >(e),
        spec_disqualify_error(*old(ctx), reason_code, now) is None ==> (result matches Ok(events)
            && {
            let g = old(ctx).giveaway;
            &&& *final(ctx) == (DisqualifyParticipant {
                participant_account: Participant {
                    disqualified: true,
                    disqualification_reason: reason_code,
                    disqualified_at_unix: now,
                    last_updated_unix: now,
                    ..old(ctx).participant_account
                },
                giveaway: Giveaway {
                    disqualified_count: if g.disqualified_count < u64::MAX {
                        (g.disqualified_count + 1) as u64
                    } else {
                        g.disqualified_count
                    },
                    ..g
                },
                ..*old(ctx)
            })
            &&& events_view(events@) == seq![
                GiveawayEventView::ParticipantDisqualified {
                    giveaway_id: g.id,
                    giveaway: spec_pubkey_base58(old(ctx).giveaway_key@),
                    participant: spec_pubkey_base58(old(ctx).participant_account.wallet@),
                    participant_account: spec_pubkey_base58(old(ctx).participant_account_key@),
                    reason_code,
                    disqualified_by: spec_pubkey_base58(old(ctx).creator@),
                    timestamp: now,
                },
            ]
        }),
{
    if ctx.giveaway.settled {
        return Err(GiveawayError::GiveawayAlreadySettled);
    }
    if ctx.giveaway.winners_locked {
        return Err(GiveawayError::WinnersLocked);
    }
    if !pubkey_eq(&ctx.participant_account.giveaway, &ctx.giveaway_key) {
        return Err(GiveawayError::InvalidAccount);
    }
    if ctx.participant_account.disqualified {
        return Err(GiveawayError::AlreadyDisqualified);
    }
    if !pubkey_eq(&ctx.creator, &ctx.giveaway.creator) {
        return Err(GiveawayError::CreatorMismatch);
    }
    validate_reason_code(reason_code)?;
    if !(now < ctx.giveaway.upload_start_unix) {
        return Err(GiveawayError::InvalidInstruction);
    }
    ctx.participant_account.disqualify(reason_code, now);
    let _ = ctx.giveaway.disqualify_participant();
    let event = GiveawayEvent::ParticipantDisqualified {
        giveaway_id: ctx.giveaway.id,
        giveaway: pubkey_to_string(&ctx.giveaway_key),
        participant: pubkey_to_string(&ctx.participant_account.wallet),
        participant_account: pubkey_to_string(&ctx.participant_account_key),
        reason_code,
        disqualified_by: pubkey_to_string(&ctx.creator),
        timestamp: now,
    };
    let events = vec![event];
    assert(events_view(events@) =~= seq![events@[0]@]);
    Ok(events)
}

/// The known reasons, incomplete tasks (1), invalid proof (2), terms
/// violation (3), duplicate entry (4) and other (255), are never refused as
/// unknown, and which of them is given changes nothing else of the answer;
/// any other code is refused with `InvalidReasonCode` when the checks
/// before it pass.
pub proof fn lemma_disqualify_accepts_known_reasons(
    ctx: DisqualifyParticipant,
    reason_code: u8,
    now: i64,
)
    ensures
        (reason_code == 1 || reason_code == 2 || reason_code == 3 || reason_code == 4
            || reason_code == 255) ==> spec_disqualify_error(ctx, reason_code, now)
            != Some(GiveawayError::InvalidReasonCode) && spec_disqualify_error(
            ctx,
            reason_code,
            now,
        ) == spec_disqualify_error(ctx, 1, now),
        !(reason_code == 1 || reason_code == 2 || reason_code == 3 || reason_code == 4
            || reason_code == 255) && spec_disqualify_error(ctx, 1, now) is None
            ==> spec_disqualify_error(ctx, reason_code, now) == Some(
            GiveawayError::InvalidReasonCode,
        ),
{
}

/// Only the creator disqualifies, only an entry of this giveaway that is not
/// yet disqualified, only before the upload window opens and before the
/// winners are locked or the giveaway settled.
pub proof fn lemma_disqualify_only_by_creator_before_uploads(
    ctx: DisqualifyParticipant,
    reason_code: u8,
    now: i64,
)
    ensures
        spec_disqualify_error(ctx, reason_code, now) is None ==> {
            &&& !ctx.giveaway.settled
            &&& !ctx.giveaway.winners_locked
            &&& ctx.participant_account.giveaway@ == ctx.giveaway_key@
            &&& !ctx.participant_account.disqualified
            &&& ctx.creator@ == ctx.giveaway.creator@
            &&& now < ctx.giveaway.upload_start_unix
        },
{
}

} // verus!
