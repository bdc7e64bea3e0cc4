//! Refund settlement for a giveaway whose finalization completed with no
//! eligible winner; the existing winners ledger, with a zero winner count, is
//! the proof that finalization ran.
use vstd::prelude::*;
use crate::bytes::{pubkey_eq, Pubkey};
use crate::error::GiveawayError;
use crate::events::{events_view, GiveawayEvent};
use crate::instructions::settle_giveaway::{
    refund_and_settle, spec_refund_events, spec_refund_transfer_error, spec_refunded,
};
use crate::state::config::Config;
use crate::state::giveaway::{Giveaway, GiveawayStatus};
use crate::state::winners_ledger::WinnersLedger;
use crate::utils::account::AccountSnapshot;

verus! {

/// Accounts of the no-winner refund.
pub struct SettleNoEligibleGiveaway {
    pub config_key: Pubkey,
    pub config: Config,
    pub giveaway_key: Pubkey,
    pub giveaway: Giveaway,
    pub vault: AccountSnapshot,
    pub winners_ledger: WinnersLedger,
    pub creator: AccountSnapshot,
    /// The second signer: the configured authority or the creator.
    pub authority: AccountSnapshot,
}

/// The first account check of a no-winner refund that fails, if any.
pub open spec fn spec_settle_no_eligible_error(ctx: SettleNoEligibleGiveaway) -> Option<
    GiveawayError,
> {
    let g = ctx.giveaway;
    if !ctx.creator.is_signer || !ctx.authority.is_signer {
        Some(GiveawayError::MissingSigner)
    } else if g.config@ != ctx.config_key@ {
        Some(GiveawayError::InvalidAccount)
    } else if !g.winners_computed {
        Some(GiveawayError::WinnersNotComputed)
    } else if ctx.vault.key@ != g.vault@ {
        Some(GiveawayError::InvalidAccount)
    } else if ctx.winners_ledger.giveaway@ != ctx.giveaway_key@ {
        Some(GiveawayError::InvalidAccount)
    } else if ctx.winners_ledger.winners_count != 0 {
        Some(GiveawayError::InvalidInstruction)
    } else if ctx.creator.key@ != g.creator@ {
        Some(GiveawayError::CreatorMismatch)
    } else if ctx.authority.key@ != ctx.config.authority@ && ctx.authority.key@ != g.creator@ {
        Some(GiveawayError::Unauthorized)
    } else {
        None
    }
}

/// Refunds the whole vault to the creator and settles the giveaway, with
/// the reason `no_eligible_participants`. A settled giveaway is left as it
/// is. Both the creator and the authority must have signed.
pub fn process(ctx: &mut SettleNoEligibleGiveaway, now: i64) -> (result: Result<
    Vec<GiveawayEvent>,
    GiveawayError,
>)
    ensures
        result is Err ==> *final(ctx) == *old(ctx),
        old(ctx).giveaway.winners_locked ==> final(ctx).giveaway.winners_locked,
        spec_settle_no_eligible_error(*old(ctx)) matches Some(e) ==> result == Err::<
            Vec<GiveawayEvent>,
            _,
        >(e),
        spec_settle_no_eligible_error(*old(ctx)) is None && old(ctx).giveaway.settled ==> (result
            matches Ok(events) && events@.len() == 0 && *final(ctx) == *old(ctx)),
        spec_settle_no_eligible_error(*old(ctx)) is None && !old(ctx).giveaway.settled ==> match spec_refund_transfer_error(old(ctx).vault, old(ctx).creator) {
            Some(e) => result == Err::<Vec<GiveawayEvent>, _>(e),
            None => result matches Ok(events) && *final(ctx) == (SettleNoEligibleGiveaway {
                giveaway: Giveaway {
                    status: GiveawayStatus::Settled,
                    settled: true,
                    ..old(ctx).giveaway
                },
                vault: spec_refunded(old(ctx).vault, old(ctx).creator).0,
                creator: spec_refunded(old(ctx).vault, old(ctx).creator).1,
                ..*old(ctx)
            }) && events_view(events@) == spec_refund_events(
                old(ctx).giveaway,
                old(ctx).giveaway_key@,
                old(ctx).creator.key@,
                "no_eligible_participants"@,
                old(ctx).vault.lamports,
                now,
            ),
        },
{
    if !ctx.creator.is_signer || !ctx.authority.is_signer {
        return Err(GiveawayError::MissingSigner);
    }
    if !pubkey_eq(&ctx.giveaway.config, &ctx.config_key) {
        return Err(GiveawayError::InvalidAccount);
    }
    if !ctx.giveaway.winners_computed {
        return Err(GiveawayError::WinnersNotComputed);
    }
    if !pubkey_eq(&ctx.vault.key, &ctx.giveaway.vault) {
        return Err(GiveawayError::InvalidAccount);
    }
    if !pubkey_eq(&ctx.winners_ledger.giveaway, &ctx.giveaway_key) {
        return Err(GiveawayError::InvalidAccount);
    }
    if ctx.winners_ledger.winners_count != 0 {
        return Err(GiveawayError::InvalidInstruction);
    }
    if !pubkey_eq(&ctx.creator.key, &ctx.giveaway.creator) {
        return Err(GiveawayError::CreatorMismatch);
    }
    if !pubkey_eq(&ctx.authority.key, &ctx.config.authority) && !pubkey_eq(
        &ctx.authority.key,
        &ctx.giveaway.creator,
    ) {
        return Err(GiveawayError::Unauthorized);
    }
    if ctx.giveaway.settled {
        return Ok(Vec::new());
    }
    let giveaway_key = ctx.giveaway_key;
    refund_and_settle(
        &mut ctx.giveaway,
        &giveaway_key,
        &mut ctx.vault,
        &mut ctx.creator,
        "no_eligible_participants",
        now,
    )
}

} // verus!
