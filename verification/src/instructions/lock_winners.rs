//! Irreversibly locks the computed winner set of a giveaway.
use vstd::prelude::*;
use crate::address::{pubkey_to_string, spec_pubkey_base58};
use crate::bytes::{pubkey_eq, Pubkey};
use crate::error::GiveawayError;
use crate::events::{events_view, GiveawayEvent, GiveawayEventView};
use crate::state::config::Config;
use crate::state::giveaway::Giveaway;
use crate::state::winners_ledger::WinnersLedger;

verus! {

/// Accounts of the lock instruction.
pub struct LockWinners {
    pub config: Config,
    pub giveaway_key: Pubkey,
    pub giveaway: Giveaway,
    pub winners_ledger_key: Pubkey,
    pub winners_ledger: WinnersLedger,
    /// The signing creator.
    pub creator: Pubkey,
}

/// The first account constraint the accounts fail, if any.
pub open spec fn spec_lock_winners_error(ctx: LockWinners) -> Option<GiveawayError> {
    if ctx.giveaway.settled {
        Some(GiveawayError::GiveawayAlreadySettled)
    } else if !ctx.giveaway.winners_computed {
        Some(GiveawayError::WinnersNotComputed)
    } else if ctx.giveaway.winners_locked {
        Some(GiveawayError::WinnersLocked)
    } else if ctx.winners_ledger.giveaway@ != ctx.giveaway_key@ {
        Some(GiveawayError::InvalidAccount)
    } else if ctx.creator@ != ctx.giveaway.creator@ {
        Some(GiveawayError::CreatorMismatch)
    } else {
        None
    }
}

/// Locks the winner set in the giveaway and in its winners ledger.
pub fn process(ctx: &mut LockWinners, now: i64) -> (result: Result<Vec<GiveawayEvent>, GiveawayError>)
    ensures
        result is Err ==> *final(ctx) == *old(ctx),
        old(ctx).giveaway.winners_locked ==> final(ctx).giveaway.winners_locked,
        spec_lock_winners_error(*old(ctx)) matches Some(e) ==> result == Err::<Vec<GiveawayEvent>, _>(
            e,
        ),
        spec_lock_winners_error(*old(ctx)) is None ==> {
            &&& final(ctx).giveaway == (Giveaway { winners_locked: true, ..old(ctx).giveaway })
            &&& final(ctx).winners_ledger == (WinnersLedger {
                locked: true,
                locked_at_unix: now,
                ..old(ctx).winners_ledger
            })
            &&& final(ctx).config == old(ctx).config
            &&& result matches Ok(events) && events_view(events@) == seq![
                GiveawayEventView::WinnersLocked {
                    giveaway_id: old(ctx).giveaway.id,
                    giveaway: spec_pubkey_base58(old(ctx).giveaway_key@),
                    winners_ledger: spec_pubkey_base58(old(ctx).winners_ledger_key@),
                    final_recompute_version: old(ctx).giveaway.recompute_version,
                    final_winners_count: old(ctx).winners_ledger.winners_count,
                    timestamp: now,
                },
            ]
        },
{
    if ctx.giveaway.settled {
        return Err(GiveawayError::GiveawayAlreadySettled);
    }
    if !ctx.giveaway.winners_computed {
        return Err(GiveawayError::WinnersNotComputed);
    }
    if ctx.giveaway.winners_locked {
        return Err(GiveawayError::WinnersLocked);
    }
    if !pubkey_eq(&ctx.winners_ledger.giveaway, &ctx.giveaway_key) {
        return Err(GiveawayError::InvalidAccount);
    }
    if !pubkey_eq(&ctx.creator, &ctx.giveaway.creator) {
        return Err(GiveawayError::CreatorMismatch);
    }
    ctx.giveaway.lock_winners();
    ctx.winners_ledger.lock(now);
    let event = GiveawayEvent::WinnersLocked {
        giveaway_id: ctx.giveaway.id,
        giveaway: pubkey_to_string(&ctx.giveaway_key),
        winners_ledger: pubkey_to_string(&ctx.winners_ledger_key),
        final_recompute_version: ctx.giveaway.recompute_version,
        final_winners_count: ctx.winners_ledger.winners_count,
        timestamp: now,
    };
    let events = vec![event];
    assert(events_view(events@) =~= seq![events@[0]@]);
    Ok(events)
}

/// Only the creator locks, and only computed, not yet locked winners of an
/// unsettled giveaway with its own winners ledger.
pub proof fn lemma_lock_only_computed_winners(ctx: LockWinners)
    ensures
        spec_lock_winners_error(ctx) is None ==> {
            &&& !ctx.giveaway.settled
            &&& ctx.giveaway.winners_computed
            &&& !ctx.giveaway.winners_locked
            &&& ctx.winners_ledger.giveaway@ == ctx.giveaway_key@
            &&& ctx.creator@ == ctx.giveaway.creator@
        },
{
}

} // verus!
