//! Refund-only settlement for giveaways that never need a winners ledger: no
//! participants, no attesters, or accepted reveals still missing after the
//! remediation window expired. The whole vault goes back to the creator.
use vstd::prelude::*;
use crate::address::{pubkey_to_string, spec_pubkey_base58};
use crate::bytes::{pubkey_eq, Pubkey};
use crate::error::GiveawayError;
use crate::events::{events_view, GiveawayEvent, GiveawayEventView};
use crate::state::config::Config;
use crate::state::giveaway::{spec_remediation_expired, Giveaway, GiveawayStatus};
use crate::utils::account::{transfer_lamports, AccountSnapshot};

verus! {

/// Accounts of the refund settlement.
pub struct SettleGiveaway {
    pub config_key: Pubkey,
    pub config: Config,
    pub giveaway_key: Pubkey,
    pub giveaway: Giveaway,
    pub vault: AccountSnapshot,
    pub creator: AccountSnapshot,
    /// The second signer: the configured authority or the creator.
    pub authority: AccountSnapshot,
}

/// Why a giveaway may be refunded at `current_time`: no participants once
/// participation closed, no attesters once the upload window closed, or
/// accepted reveals missing after remediation expired; otherwise an error.
pub open spec fn spec_refund_reason(g: Giveaway, current_time: i64) -> Result<Seq<char>, GiveawayError> {
    if g.participants_count == 0 {
        if current_time >= g.active_deadline_unix {
            Ok("no_participants"@)
        } else {
            Err(GiveawayError::SettlementNotReady)
        }
    } else if g.attested_count == 0 {
        if current_time >= g.upload_deadline_unix {
            Ok("no_attesters"@)
        } else {
            Err(GiveawayError::SettlementNotReady)
        }
    } else if spec_remediation_expired(g, current_time) {
        Ok("accepted_reveals_omitted_after_remediation"@)
    } else {
        Err(GiveawayError::InvalidInstruction)
    }
}

/// The refund path a giveaway qualifies for at `current_time`.
pub fn refund_reason(giveaway: &Giveaway, current_time: i64) -> (result: Result<
    &'static str,
    GiveawayError,
>)
    ensures
        match result {
            Ok(reason) => spec_refund_reason(*giveaway, current_time) == Ok::<
                Seq<char>,
                GiveawayError,
            >(reason@),
            Err(e) => spec_refund_reason(*giveaway, current_time) == Err::<Seq<char>, _>(e),
        },
{
    if giveaway.participants_count == 0 {
        if !(current_time >= giveaway.active_deadline_unix) {
            return Err(GiveawayError::SettlementNotReady);
        }
        Ok("no_participants")
    } else if giveaway.attested_count == 0 {
        if !(current_time >= giveaway.upload_deadline_unix) {
            return Err(GiveawayError::SettlementNotReady);
        }
        Ok("no_attesters")
    } else if giveaway.remediation_expired(current_time) {
        Ok("accepted_reveals_omitted_after_remediation")
    } else {
        Err(GiveawayError::InvalidInstruction)
    }
}

/// The first account check of a refund settlement that fails, if any.
pub open spec fn spec_settle_giveaway_account_error(ctx: SettleGiveaway) -> Option<GiveawayError> {
    let g = ctx.giveaway;
    if !ctx.creator.is_signer || !ctx.authority.is_signer {
        Some(GiveawayError::MissingSigner)
    } else if g.config@ != ctx.config_key@ {
        Some(GiveawayError::InvalidAccount)
    } else if ctx.vault.key@ != g.vault@ {
        Some(GiveawayError::InvalidAccount)
    } else if ctx.creator.key@ != g.creator@ {
        Some(GiveawayError::CreatorMismatch)
    } else if ctx.authority.key@ != ctx.config.authority@ && ctx.authority.key@ != g.creator@ {
        Some(GiveawayError::Unauthorized)
    } else {
        None
    }
}

/// The error, if any, of refunding the whole vault to the creator.
pub open spec fn spec_refund_transfer_error(vault: AccountSnapshot, creator: AccountSnapshot) -> Option<
    GiveawayError,
> {
    if vault.lamports > 0 && vault.key@ != creator.key@ && creator.lamports + vault.lamports
        > u64::MAX {
        Some(GiveawayError::MathOverflow)
    } else {
        None
    }
}

/// The vault and creator after the whole vault is refunded to the creator.
pub open spec fn spec_refunded(vault: AccountSnapshot, creator: AccountSnapshot) -> (
    AccountSnapshot,
    AccountSnapshot,
) {
    if vault.lamports == 0 {
        (vault, creator)
    } else if vault.key@ == creator.key@ {
        (vault, AccountSnapshot { lamports: vault.lamports, ..creator })
    } else {
        (
            AccountSnapshot { lamports: 0, ..vault },
            AccountSnapshot { lamports: (creator.lamports + vault.lamports) as u64, ..creator },
        )
    }
}

/// The refund events: the no-winner notice with its reason, the refund when
/// the vault held lamports, and the settlement.
pub open spec fn spec_refund_events(
    g: Giveaway,
    giveaway_key: Seq<u8>,
    creator_key: Seq<u8>,
    reason: Seq<char>,
    refund: u64,
    now: i64,
) -> Seq<GiveawayEventView> {
    let notice = GiveawayEventView::NoWinners {
        giveaway_id: g.id,
        giveaway: spec_pubkey_base58(giveaway_key),
        reason,
        total_participants: g.participants_count,
        total_attested: g.attested_count,
        timestamp: now,
    };
    let settled = GiveawayEventView::GiveawaySettled {
        giveaway_id: g.id,
        giveaway: spec_pubkey_base58(giveaway_key),
        total_winners: 0,
        total_paid_lamports: 0,
        timestamp: now,
    };
    if refund > 0 {
        seq![
            notice,
            GiveawayEventView::CreatorRefunded {
                giveaway_id: g.id,
                giveaway: spec_pubkey_base58(giveaway_key),
                creator: spec_pubkey_base58(creator_key),
                amount_lamports: refund,
                timestamp: now,
            },
            settled,
        ]
    } else {
        seq![notice, settled]
    }
}

/// Refunds the vault to the creator with the given reason, settles the
/// giveaway and reports it.
pub fn refund_and_settle(
    giveaway: &mut Giveaway,
    giveaway_key: &Pubkey,
    vault: &mut AccountSnapshot,
    creator: &mut AccountSnapshot,
    reason: &str,
    now: i64,
) -> (result: Result<Vec<GiveawayEvent>, GiveawayError>)
    ensures
        result is Err ==> *final(giveaway) == *old(giveaway) && *final(vault) == *old(vault)
            && *final(creator) == *old(creator),
        spec_refund_transfer_error(*old(vault), *old(creator)) matches Some(e) ==> result == Err::<
            Vec<GiveawayEvent>,
            _,
        >(e),
        spec_refund_transfer_error(*old(vault), *old(creator)) is None ==> (result matches Ok(
            events,
        ) && (*final(vault), *final(creator)) == spec_refunded(*old(vault), *old(creator))
            && *final(giveaway) == (Giveaway {
            status: GiveawayStatus::Settled,
            settled: true,
            ..*old(giveaway)
        }) && events_view(events@) == spec_refund_events(
            *old(giveaway),
            giveaway_key@,
            old(creator).key@,
            reason@,
            old(vault).lamports,
            now,
        )),
{
    let mut events: Vec<GiveawayEvent> = Vec::new();
    events.push(
        GiveawayEvent::NoWinners {
            giveaway_id: giveaway.id,
            giveaway: pubkey_to_string(giveaway_key),
            reason: reason.to_owned(),
            total_participants: giveaway.participants_count,
            total_attested: giveaway.attested_count,
            timestamp: now,
        },
    );
    let refund = vault.lamports;
    if refund > 0 {
        transfer_lamports(vault, creator, refund)?;
        events.push(
            GiveawayEvent::CreatorRefunded {
                giveaway_id: giveaway.id,
                giveaway: pubkey_to_string(giveaway_key),
                creator: pubkey_to_string(&creator.key),
                amount_lamports: refund,
                timestamp: now,
            },
        );
    }
    giveaway.settle();
    events.push(
        GiveawayEvent::GiveawaySettled {
            giveaway_id: giveaway.id,
            giveaway: pubkey_to_string(giveaway_key),
            total_winners: 0,
            total_paid_lamports: 0,
            timestamp: now,
        },
    );
    assert(events_view(events@) =~= spec_refund_events(
        *old(giveaway),
        giveaway_key@,
        old(creator).key@,
        reason@,
        old(vault).lamports,
        now,
    ));
    Ok(events)
}

/// Settles a giveaway through its refund path: the whole vault goes back to
/// the creator and the giveaway is marked settled. A settled giveaway is
/// left as it is. Both the creator and the authority must have signed.
pub fn process(ctx: &mut SettleGiveaway, now: i64) -> (result: Result<Vec<GiveawayEvent>, GiveawayError>)
    ensures
        result is Err ==> *final(ctx) == *old(ctx),
        old(ctx).giveaway.winners_locked ==> final(ctx).giveaway.winners_locked,
        spec_settle_giveaway_account_error(*old(ctx)) matches Some(e) ==> result == Err::<
            Vec<GiveawayEvent>,
            _,
        >(e),
        spec_settle_giveaway_account_error(*old(ctx)) is None && old(ctx).giveaway.settled ==> (
        result matches Ok(events) && events@.len() == 0 && *final(ctx) == *old(ctx)),
        spec_settle_giveaway_account_error(*old(ctx)) is None && !old(ctx).giveaway.settled ==> {
            let g = old(ctx).giveaway;
            match spec_refund_reason(g, now) {
                Err(e) => result == Err::<Vec<GiveawayEvent>, _>(e),
                Ok(reason) => match spec_refund_transfer_error(old(ctx).vault, old(ctx).creator) {
                    Some(e) => result == Err::<Vec<GiveawayEvent>, _>(e),
                    None => result matches Ok(events) && *final(ctx) == (SettleGiveaway {
                        giveaway: Giveaway { status: GiveawayStatus::Settled, settled: true, ..g },
                        vault: spec_refunded(old(ctx).vault, old(ctx).creator).0,
                        creator: spec_refunded(old(ctx).vault, old(ctx).creator).1,
                        ..*old(ctx)
                    }) && events_view(events@) == spec_refund_events(
                        g,
                        old(ctx).giveaway_key@,
                        old(ctx).creator.key@,
                        reason,
                        old(ctx).vault.lamports,
                        now,
                    ),
                },
            }
        },
{
    if !ctx.creator.is_signer || !ctx.authority.is_signer {
        return Err(GiveawayError::MissingSigner);
    }
    if !pubkey_eq(&ctx.giveaway.config, &ctx.config_key) {
        return Err(GiveawayError::InvalidAccount);
    }
    if !pubkey_eq(&ctx.vault.key, &ctx.giveaway.vault) {
        return Err(GiveawayError::InvalidAccount);
    }
    if !pubkey_eq(&ctx.creator.key, &ctx.giveaway.creator) {
        return Err(GiveawayError::CreatorMismatch);
    }
    if !pubkey_eq(&ctx.authority.key, &ctx.config.authority) && !pubkey_eq(
        &ctx.authority.key,
        &ctx.giveaway.creator,
    ) {
        return Err(GiveawayError::Unauthorized);
    }
    if ctx.giveaway.settled {
        return Ok(Vec::new());
    }
    let reason = refund_reason(&ctx.giveaway, now)?;
    let giveaway_key = ctx.giveaway_key;
    refund_and_settle(&mut ctx.giveaway, &giveaway_key, &mut ctx.vault, &mut ctx.creator, reason, now)
}

/// A refund happens only once no draw is possible, and the windows decide
/// when: a giveaway nobody joined is refundable once participation closed;
/// one nobody attested, once the upload window closed (while it is open
/// participants can still attest, so the refund is not ready); one with
/// attesters, only after the remediation window expired with attested
/// reveals still missing.
pub proof fn lemma_refund_only_when_no_draw_is_possible(g: Giveaway, t: i64)
    ensures
        g.participants_count == 0 ==> spec_refund_reason(g, t) == if t >= g.active_deadline_unix {
            Ok::<Seq<char>, GiveawayError>("no_participants"@)
        } else {
            Err(GiveawayError::SettlementNotReady)
        },
        g.participants_count > 0 && g.attested_count == 0 ==> spec_refund_reason(g, t) == if t
            >= g.upload_deadline_unix {
            Ok::<Seq<char>, GiveawayError>("no_attesters"@)
        } else {
            Err(GiveawayError::SettlementNotReady)
        },
        g.participants_count > 0 && g.attested_count > 0 ==> spec_refund_reason(g, t) == if g.remediation_deadline_unix
            > 0 && t > g.remediation_deadline_unix && g.provider_uploaded_count < g.attested_count {
            Ok::<Seq<char>, GiveawayError>("accepted_reveals_omitted_after_remediation"@)
        } else {
            Err(GiveawayError::InvalidInstruction)
        },
        spec_refund_reason(g, t) is Ok ==> {
            ||| g.participants_count == 0 && t >= g.active_deadline_unix
            ||| g.attested_count == 0 && t >= g.upload_deadline_unix
            ||| g.provider_uploaded_count < g.attested_count && g.remediation_deadline_unix > 0 && t
                > g.remediation_deadline_unix
        },
{
}

} // verus!
