//! Lets a participant reclaim the rent of their entry once the giveaway is
//! settled; the account itself is closed to the participant's wallet.
use vstd::prelude::*;
use crate::address::{pubkey_to_string, spec_pubkey_base58};
use crate::bytes::{pubkey_eq, zero_bytes, Pubkey};
use crate::error::GiveawayError;
use crate::events::{events_view, GiveawayEvent, GiveawayEventView};
use crate::state::config::Config;
use crate::state::giveaway::Giveaway;
use crate::state::participant::Participant;
use crate::utils::account::AccountSnapshot;

verus! {

/// Accounts of the entry closing.
pub struct CloseParticipant {
    pub config_key: Pubkey,
    pub config: Config,
    pub giveaway_key: Pubkey,
    pub giveaway: Giveaway,
    pub participant_account: AccountSnapshot,
    pub participant_entry: Participant,
    /// The signing participant wallet, which receives the rent.
    pub participant: AccountSnapshot,
}

/// The first account check of a closing that fails, if any.
pub open spec fn spec_close_participant_error(ctx: CloseParticipant) -> Option<GiveawayError> {
    if !ctx.participant.is_signer {
        Some(GiveawayError::MissingSigner)
    } else if ctx.giveaway.config@ != ctx.config_key@ {
        Some(GiveawayError::InvalidAccount)
    } else if !ctx.giveaway.settled {
        Some(GiveawayError::InvalidInstruction)
    } else if ctx.participant_entry.giveaway@ != ctx.giveaway_key@ {
        Some(GiveawayError::InvalidAccount)
    } else if ctx.participant_entry.wallet@ != ctx.participant.key@ {
        Some(GiveawayError::InvalidAccount)
    } else if ctx.participant_account.key@ == ctx.participant.key@ {
        Some(GiveawayError::InvalidAccount)
    } else if ctx.participant.lamports + ctx.participant_account.lamports > u64::MAX {
        Some(GiveawayError::MathOverflow)
    } else {
        None
    }
}

/// Closes the entry's account to the participant: its whole balance moves
/// to the participant's wallet, and the account is left empty and owned by
/// the system program.
pub fn process(ctx: &mut CloseParticipant, now: i64) -> (result: Result<
    Vec<GiveawayEvent>,
    GiveawayError,
>)
    ensures
        result is Err ==> *final(ctx) == *old(ctx),
        spec_close_participant_error(*old(ctx)) matches Some(e) ==> result == Err::<
            Vec<GiveawayEvent>,
            _,
        >(e),
        spec_close_participant_error(*old(ctx)) is None ==> (result matches Ok(events)
            && final(ctx).participant_account.owner@ == zero_bytes(32) && *final(ctx) == (
        CloseParticipant {
            participant_account: AccountSnapshot {
                owner: final(ctx).participant_account.owner,
                lamports: 0,
                data_is_empty: true,
                ..old(ctx).participant_account
            },
            participant: AccountSnapshot {
                lamports: (old(ctx).participant.lamports + old(ctx).participant_account.lamports) as u64,
                ..old(ctx).participant
            },
            ..*old(ctx)
        }) && events_view(events@) == seq![
            GiveawayEventView::ParticipantClosed {
                giveaway_id: old(ctx).giveaway.id,
                giveaway: spec_pubkey_base58(old(ctx).giveaway_key@),
                participant: spec_pubkey_base58(old(ctx).participant.key@),
                participant_account: spec_pubkey_base58(old(ctx).participant_account.key@),
                rent_reclaimed: old(ctx).participant_account.lamports,
                timestamp: now,
            },
        ]),
{
    if !ctx.participant.is_signer {
        return Err(GiveawayError::MissingSigner);
    }
    if !pubkey_eq(&ctx.giveaway.config, &ctx.config_key) {
        return Err(GiveawayError::InvalidAccount);
    }
    if !ctx.giveaway.settled {
        return Err(GiveawayError::InvalidInstruction);
    }
    if !pubkey_eq(&ctx.participant_entry.giveaway, &ctx.giveaway_key) {
        return Err(GiveawayError::InvalidAccount);
    }
    if !pubkey_eq(&ctx.participant_entry.wallet, &ctx.participant.key) {
        return Err(GiveawayError::InvalidAccount);
    }
    if pubkey_eq(&ctx.participant_account.key, &ctx.participant.key) {
        return Err(GiveawayError::InvalidAccount);
    }
    let rent_reclaimed = ctx.participant_account.lamports;
    let credited = match ctx.participant.lamports.checked_add(rent_reclaimed) {
        Some(total) => total,
        None => {
            return Err(GiveawayError::MathOverflow);
        },
    };
    let event = GiveawayEvent::ParticipantClosed {
        giveaway_id: ctx.giveaway.id,
        giveaway: pubkey_to_string(&ctx.giveaway_key),
        participant: pubkey_to_string(&ctx.participant.key),
        participant_account: pubkey_to_string(&ctx.participant_account.key),
        rent_reclaimed,
        timestamp: now,
    };
    ctx.participant.lamports = credited;
    ctx.participant_account.lamports = 0;
    ctx.participant_account.owner = [0u8; 32];
    assert(ctx.participant_account.owner@ =~= zero_bytes(32));
    ctx.participant_account.data_is_empty = true;
    let events = vec![event];
    assert(events_view(events@) =~= seq![events@[0]@]);
    Ok(events)
}

} // verus!
