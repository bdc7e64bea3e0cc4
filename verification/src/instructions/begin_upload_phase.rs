//! Authority-only start of the upload window. Production builds refuse it;
//! the early-upload variant opens the window at once for the configured
//! default length and closes participation.
use vstd::prelude::*;
use crate::address::{pubkey_to_string, spec_pubkey_base58};
use crate::bytes::{pubkey_eq, Pubkey};
use crate::error::GiveawayError;
use crate::events::{events_view, GiveawayEvent, GiveawayEventView};
use crate::state::config::Config;
use crate::state::giveaway::Giveaway;

verus! {

/// Accounts of the upload-phase start.
pub struct BeginUploadPhase {
    pub config: Config,
    pub giveaway_key: Pubkey,
    pub giveaway: Giveaway,
    /// The signing authority.
    pub authority: Pubkey,
}

/// The first account check of an upload-phase start that fails, if any.
pub open spec fn spec_begin_upload_account_error(ctx: BeginUploadPhase) -> Option<GiveawayError> {
    if ctx.giveaway.settled {
        Some(GiveawayError::GiveawayAlreadySettled)
    } else if ctx.authority@ != ctx.config.authority@ {
        Some(GiveawayError::Unauthorized)
    } else {
        None
    }
}

fn check_accounts(ctx: &BeginUploadPhase) -> (result: Result<(), GiveawayError>)
    ensures
        result == match spec_begin_upload_account_error(*ctx) {
            Some(e) => Err::<(), GiveawayError>(e),
            None => Ok(()),
        },
{
    if ctx.giveaway.settled {
        return Err(GiveawayError::GiveawayAlreadySettled);
    }
    if !pubkey_eq(&ctx.authority, &ctx.config.authority) {
        return Err(GiveawayError::Unauthorized);
    }
    Ok(())
}

/// The production instruction: early upload is disabled.
pub fn process(ctx: &BeginUploadPhase) -> (result: Result<Vec<GiveawayEvent>, GiveawayError>)
    ensures
        result == match spec_begin_upload_account_error(*ctx) {
            Some(e) => Err::<Vec<GiveawayEvent>, GiveawayError>(e),
            None => Err(GiveawayError::EarlyUploadDisabled),
        },
{
    check_accounts(ctx)?;
    Err(GiveawayError::EarlyUploadDisabled)
}

/// The early-upload variant: the upload window opens at `now` for the
/// configured default length, and a participation deadline still ahead is
/// brought forward to `now`.
pub fn process_early_upload(ctx: &mut BeginUploadPhase, now: i64) -> (result: Result<
    Vec<GiveawayEvent>,
    GiveawayError,
>)
    ensures
        result is Err ==> *final(ctx) == *old(ctx),
        old(ctx).giveaway.winners_locked ==> final(ctx).giveaway.winners_locked,
        spec_begin_upload_account_error(*old(ctx)) matches Some(e) ==> result == Err::<
            Vec<GiveawayEvent>,
            _,
        >(e),
        spec_begin_upload_account_error(*old(ctx)) is None && now
            + old(ctx).config.default_upload_duration_secs > i64::MAX ==> result == Err::<
            Vec<GiveawayEvent>,
            _,
        >(GiveawayError::MathOverflow),
        spec_begin_upload_account_error(*old(ctx)) is None && now
            + old(ctx).config.default_upload_duration_secs <= i64::MAX ==> (result matches Ok(
            events,
        ) && {
            let g = old(ctx).giveaway;
            let deadline = (now + old(ctx).config.default_upload_duration_secs) as i64;
            &&& *final(ctx) == (BeginUploadPhase {
                giveaway: Giveaway {
                    upload_start_unix: now,
                    upload_deadline_unix: deadline,
                    active_deadline_unix: if g.active_deadline_unix > now {
                        now
                    } else {
                        g.active_deadline_unix
                    },
                    ..g
                },
                ..*old(ctx)
            })
            &&& events_view(events@) == seq![
                GiveawayEventView::UploadPhaseBegan {
                    giveaway_id: g.id,
                    giveaway: spec_pubkey_base58(old(ctx).giveaway_key@),
                    upload_start_unix: now,
                    upload_deadline_unix: deadline,
                    timestamp: now,
                },
            ]
        }),
{
    check_accounts(ctx)?;
    let deadline = match now.checked_add(ctx.config.default_upload_duration_secs as i64) {
        Some(d) => d,
        None => {
            return Err(GiveawayError::MathOverflow);
        },
    };
    ctx.giveaway.upload_start_unix = now;
    ctx.giveaway.upload_deadline_unix = deadline;
    if ctx.giveaway.active_deadline_unix > now {
        ctx.giveaway.active_deadline_unix = now;
    }
    let event = GiveawayEvent::UploadPhaseBegan {
        giveaway_id: ctx.giveaway.id,
        giveaway: pubkey_to_string(&ctx.giveaway_key),
        upload_start_unix: ctx.giveaway.upload_start_unix,
        upload_deadline_unix: ctx.giveaway.upload_deadline_unix,
        timestamp: now,
    };
    let events = vec![event];
    assert(events_view(events@) =~= seq![events@[0]@]);
    Ok(events)
}

} // verus!
