//! Lets the creator push the participation deadline back before it passes;
//! the upload window moves with it and keeps its length.
use vstd::prelude::*;
use crate::address::{pubkey_to_string, spec_pubkey_base58};
use crate::bytes::{pubkey_eq, Pubkey};
use crate::constants::{
    MAX_ACTIVE_DURATION_SECS, MAX_UPLOAD_DURATION_SECS, MIN_ACTIVE_DURATION_SECS,
    MIN_UPLOAD_DURATION_SECS,
};
use crate::error::GiveawayError;
use crate::events::{events_view, GiveawayEvent, GiveawayEventView};
use crate::state::config::Config;
use crate::state::giveaway::Giveaway;

verus! {

/// Accounts of the deadline extension.
pub struct ExtendActiveDeadline {
    pub config: Config,
    pub giveaway_key: Pubkey,
    pub giveaway: Giveaway,
    /// The signing creator.
    pub creator: Pubkey,
}

/// The first check of an extension to `new_deadline_unix` at `now` that
/// fails, if any.
pub open spec fn spec_extend_error(ctx: ExtendActiveDeadline, new_deadline_unix: i64, now: i64) -> Option<
    GiveawayError,
> {
    let g = ctx.giveaway;
    let active = new_deadline_unix - g.active_start_unix;
    let upload = g.upload_deadline_unix - g.upload_start_unix;
    if g.settled {
        Some(GiveawayError::GiveawayAlreadySettled)
    } else if ctx.creator@ != g.creator@ {
        Some(GiveawayError::CreatorMismatch)
    } else if now >= g.active_deadline_unix {
        Some(GiveawayError::DeadlinePassed)
    } else if new_deadline_unix <= g.active_deadline_unix {
        Some(GiveawayError::CannotShorten)
    } else if active < i64::MIN || active > i64::MAX {
        Some(GiveawayError::MathOverflow)
    } else if !(MIN_ACTIVE_DURATION_SECS <= active <= MAX_ACTIVE_DURATION_SECS) {
        Some(GiveawayError::InvalidDuration)
    } else if upload < i64::MIN || upload > i64::MAX {
        Some(GiveawayError::MathOverflow)
    } else if !(MIN_UPLOAD_DURATION_SECS <= upload <= MAX_UPLOAD_DURATION_SECS) {
        Some(GiveawayError::InvalidDuration)
    } else if new_deadline_unix + upload > i64::MAX {
        Some(GiveawayError::MathOverflow)
    } else {
        None
    }
}

/// Moves the participation deadline to `new_deadline_unix`; the upload
/// window opens there and keeps its length.
pub fn process(ctx: &mut ExtendActiveDeadline, new_deadline_unix: i64, now: i64) -> (result: Result<
    Vec<GiveawayEvent>,
    GiveawayError,
>)
    ensures
        result is Err ==> *final(ctx) == *old(ctx),
        old(ctx).giveaway.winners_locked ==> final(ctx).giveaway.winners_locked,
        spec_extend_error(*old(ctx), new_deadline_unix, now) matches Some(e) ==> result == Err::<
            Vec<GiveawayEvent>,
            _,
        >(e),
        spec_extend_error(*old(ctx), new_deadline_unix, now) is None ==> (result matches Ok(events)
            && {
            let g = old(ctx).giveaway;
            let upload_deadline = (new_deadline_unix + (g.upload_deadline_unix
                - g.upload_start_unix)) as i64;
            &&& *final(ctx) == (ExtendActiveDeadline {
                giveaway: Giveaway {
                    active_deadline_unix: new_deadline_unix,
                    upload_start_unix: new_deadline_unix,
                    upload_deadline_unix: upload_deadline,
                    ..g
                },
                ..*old(ctx)
            })
            &&& events_view(events@) == seq![
                GiveawayEventView::GiveawayUpdated {
                    giveaway_id: g.id,
                    giveaway: spec_pubkey_base58(old(ctx).giveaway_key@),
                    active_deadline_unix: Some(new_deadline_unix),
                    upload_deadline_unix: Some(upload_deadline),
                    timestamp: now,
                },
            ]
        }),
{
    if ctx.giveaway.settled {
        return Err(GiveawayError::GiveawayAlreadySettled);
    }
    if !pubkey_eq(&ctx.creator, &ctx.giveaway.creator) {
        return Err(GiveawayError::CreatorMismatch);
    }
    if !(now < ctx.giveaway.active_deadline_unix) {
        return Err(GiveawayError::DeadlinePassed);
    }
    if !(new_deadline_unix > ctx.giveaway.active_deadline_unix) {
        return Err(GiveawayError::CannotShorten);
    }
    let active_duration_secs = match new_deadline_unix.checked_sub(ctx.giveaway.active_start_unix) {
        Some(d) => d,
        None => {
            return Err(GiveawayError::MathOverflow);
        },
    };
    if !(active_duration_secs >= MIN_ACTIVE_DURATION_SECS as i64 && active_duration_secs
        <= MAX_ACTIVE_DURATION_SECS as i64) {
        return Err(GiveawayError::InvalidDuration);
    }
    let upload_duration_i64 = match ctx.giveaway.upload_deadline_unix.checked_sub(
        ctx.giveaway.upload_start_unix,
    ) {
        Some(d) => d,
        None => {
            return Err(GiveawayError::MathOverflow);
        },
    };
    if !(upload_duration_i64 >= MIN_UPLOAD_DURATION_SECS as i64 && upload_duration_i64
        <= MAX_UPLOAD_DURATION_SECS as i64) {
        return Err(GiveawayError::InvalidDuration);
    }
    let upload_duration_secs = upload_duration_i64 as u32;
    if new_deadline_unix.checked_add(upload_duration_secs as i64).is_none() {
        return Err(GiveawayError::MathOverflow);
    }
    ctx.giveaway.extend_active_deadline(new_deadline_unix, upload_duration_secs);
    let event = GiveawayEvent::GiveawayUpdated {
        giveaway_id: ctx.giveaway.id,
        giveaway: pubkey_to_string(&ctx.giveaway_key),
        active_deadline_unix: Some(new_deadline_unix),
        upload_deadline_unix: Some(ctx.giveaway.upload_deadline_unix),
        timestamp: now,
    };
    let events = vec![event];
    assert(events_view(events@) =~= seq![events@[0]@]);
    Ok(events)
}

/// Only the creator extends, only before the current deadline, and only to a
/// later deadline that keeps the active window within its bounds.
pub proof fn lemma_extension_only_grows_the_window(
    ctx: ExtendActiveDeadline,
    new_deadline_unix: i64,
    now: i64,
)
    ensures
        spec_extend_error(ctx, new_deadline_unix, now) is None ==> {
            &&& !ctx.giveaway.settled
            &&& ctx.creator@ == ctx.giveaway.creator@
            &&& now < ctx.giveaway.active_deadline_unix
            &&& ctx.giveaway.active_deadline_unix < new_deadline_unix
            &&& 3600 <= new_deadline_unix - ctx.giveaway.active_start_unix <= 30 * 24 * 3600
        },
{
}

} // verus!
