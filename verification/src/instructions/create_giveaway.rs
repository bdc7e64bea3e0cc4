//! Giveaway creation: the next sequential id, validated windows and winner
//! count, and a deposit large enough to pay every winner after the service
//! fee. The creator funds the new vault with its rent-exempt minimum and the
//! payout.
use vstd::prelude::*;
use crate::address::{pubkey_to_string, spec_pubkey_base58};
use crate::bytes::{pubkey_eq, Pubkey};
use crate::constants::{MAX_UPLOAD_DURATION_SECS, MAX_WINNERS, MIN_UPLOAD_DURATION_SECS, MIN_WINNERS};
use crate::error::GiveawayError;
use crate::events::{events_view, GiveawayEvent, GiveawayEventView};
use crate::state::config::Config;
use crate::state::giveaway::{spec_valid_timing, Giveaway, GiveawayStatus, GIVEAWAY_ACCOUNT_VERSION};
use crate::utils::account::AccountSnapshot;
use crate::utils::validation::{
    require_sufficient_lamports, spec_minimum_winners_pool_ok, validate_duration,
    validate_minimum_winners_pool, validate_timing_sequence, validate_winner_count,
};

verus! {

/// Accounts of the giveaway creation.
pub struct CreateGiveaway {
    pub config_key: Pubkey,
    pub config: Config,
    pub giveaway_key: Pubkey,
    /// The fresh giveaway account.
    pub giveaway: Giveaway,
    pub vault: AccountSnapshot,
    /// The signing creator, who funds the vault.
    pub creator: AccountSnapshot,
}

/// The first check of a creation that fails, if any.
pub open spec fn spec_create_error(
    ctx: CreateGiveaway,
    giveaway_id: u64,
    total_payout_lamports: u64,
    number_of_winners: u32,
    active_start_unix: i64,
    active_deadline_unix: i64,
    upload_duration_secs: u32,
    vault_rent_lamports: u64,
) -> Option<GiveawayError> {
    if giveaway_id != ctx.config.next_giveaway_id {
        Some(GiveawayError::InvalidGiveawayId)
    } else if !(MIN_WINNERS <= number_of_winners <= MAX_WINNERS) {
        Some(GiveawayError::InvalidWinnerCount)
    } else if !(MIN_UPLOAD_DURATION_SECS <= upload_duration_secs <= MAX_UPLOAD_DURATION_SECS) {
        Some(GiveawayError::InvalidDuration)
    } else if !(active_start_unix < active_deadline_unix) {
        Some(GiveawayError::InvalidTiming)
    } else if !spec_valid_timing(active_start_unix, active_deadline_unix, upload_duration_secs) {
        Some(GiveawayError::InvalidTiming)
    } else if active_deadline_unix + upload_duration_secs > i64::MAX {
        Some(GiveawayError::MathOverflow)
    } else if total_payout_lamports == 0 {
        Some(GiveawayError::InsufficientFunds)
    } else if !spec_minimum_winners_pool_ok(
        total_payout_lamports,
        ctx.config.service_fee_bps,
        number_of_winners,
    ) {
        Some(GiveawayError::InsufficientFunds)
    } else if ctx.creator.lamports < total_payout_lamports {
        Some(GiveawayError::InsufficientFunds)
    } else if ctx.vault.key@ == ctx.creator.key@ {
        Some(GiveawayError::InvalidAccount)
    } else if !ctx.vault.data_is_empty || ctx.vault.lamports != 0 {
        Some(GiveawayError::AccountAlreadyInitialized)
    } else if ctx.creator.lamports < vault_rent_lamports + total_payout_lamports {
        Some(GiveawayError::InsufficientFunds)
    } else if ctx.config.next_giveaway_id == u64::MAX {
        Some(GiveawayError::MathOverflow)
    } else {
        None
    }
}

/// Creates the giveaway: it snapshots the configured service fee, opens the
/// upload window at the participation deadline, and the configuration's
/// next id advances. The vault, which must not exist yet, is created
/// holding `vault_rent_lamports` (the rent-exempt minimum of an empty
/// account) plus the payout, all taken from the creator.
pub fn process(
    ctx: &mut CreateGiveaway,
    giveaway_id: u64,
    total_payout_lamports: u64,
    number_of_winners: u32,
    active_start_unix: i64,
    active_deadline_unix: i64,
    upload_duration_secs: u32,
    vault_rent_lamports: u64,
    now: i64,
) -> (result: Result<Vec<GiveawayEvent>, GiveawayError>)
    ensures
        result is Err ==> *final(ctx) == *old(ctx),
        spec_create_error(
            *old(ctx),
            giveaway_id,
            total_payout_lamports,
            number_of_winners,
            active_start_unix,
            active_deadline_unix,
            upload_duration_secs,
            vault_rent_lamports,
        ) matches Some(e) ==> result == Err::<Vec<GiveawayEvent>, _>(e),
        spec_create_error(
            *old(ctx),
            giveaway_id,
            total_payout_lamports,
            number_of_winners,
            active_start_unix,
            active_deadline_unix,
            upload_duration_secs,
            vault_rent_lamports,
        ) is None ==> (result matches Ok(events) && {
            let upload_deadline = (active_deadline_unix + upload_duration_secs) as i64;
            let fee_bps = old(ctx).config.service_fee_bps;
            &&& final(ctx).giveaway.poc_aggregate_hash@ == Seq::new(32, |i: int| 0u8)
            &&& final(ctx).giveaway.reserved@ == Seq::new(110, |i: int| 0u8)
            &&& final(ctx).giveaway == (Giveaway {
                id: giveaway_id,
                config: old(ctx).config_key,
                creator: old(ctx).creator.key,
                vault: old(ctx).vault.key,
                status: GiveawayStatus::Active,
                total_payout_lamports,
                number_of_winners,
                service_fee_bps: fee_bps,
                created_at_unix: now,
                active_start_unix,
                active_deadline_unix,
                upload_start_unix: active_deadline_unix,
                upload_deadline_unix: upload_deadline,
                settlement_start_unix: 0,
                participants_count: 0,
                attested_count: 0,
                provider_uploaded_count: 0,
                poc_aggregate_hash: final(ctx).giveaway.poc_aggregate_hash,
                uploads_complete: false,
                disqualified_count: 0,
                winners_computed: false,
                winners_locked: false,
                recompute_version: 0,
                settled: false,
                remediation_start_unix: 0,
                remediation_deadline_unix: 0,
                account_version: GIVEAWAY_ACCOUNT_VERSION,
                reserved: final(ctx).giveaway.reserved,
            })
            &&& final(ctx).config == (Config {
                next_giveaway_id: (old(ctx).config.next_giveaway_id + 1) as u64,
                ..old(ctx).config
            })
            &&& final(ctx).config_key == old(ctx).config_key
            &&& final(ctx).giveaway_key == old(ctx).giveaway_key
            &&& final(ctx).vault == (AccountSnapshot {
                lamports: (vault_rent_lamports + total_payout_lamports) as u64,
                data_is_empty: true,
                ..old(ctx).vault
            })
            &&& final(ctx).creator == (AccountSnapshot {
                lamports: (old(ctx).creator.lamports - vault_rent_lamports
                    - total_payout_lamports) as u64,
                ..old(ctx).creator
            })
            &&& events_view(events@) == seq![
                GiveawayEventView::GiveawayCreated {
                    giveaway_id,
                    giveaway: spec_pubkey_base58(old(ctx).giveaway_key@),
                    creator: spec_pubkey_base58(old(ctx).creator.key@),
                    config: spec_pubkey_base58(old(ctx).config_key@),
                    vault: spec_pubkey_base58(old(ctx).vault.key@),
                    total_payout_lamports,
                    number_of_winners,
                    active_start_unix,
                    active_deadline_unix,
                    upload_start_unix: active_deadline_unix,
                    upload_deadline_unix: upload_deadline,
                    service_fee_bps: fee_bps,
                    timestamp: now,
                },
            ]
        }),
{
    if giveaway_id != ctx.config.next_giveaway_id {
        return Err(GiveawayError::InvalidGiveawayId);
    }
    validate_winner_count(number_of_winners)?;
    validate_duration(upload_duration_secs, MIN_UPLOAD_DURATION_SECS, MAX_UPLOAD_DURATION_SECS)?;
    validate_timing_sequence(active_start_unix, active_deadline_unix)?;
    if !Giveaway::validate_timing(active_start_unix, active_deadline_unix, upload_duration_secs) {
        return Err(GiveawayError::InvalidTiming);
    }
    let upload_deadline_unix = match active_deadline_unix.checked_add(upload_duration_secs as i64) {
        Some(d) => d,
        None => {
            return Err(GiveawayError::MathOverflow);
        },
    };
    if total_payout_lamports == 0 {
        return Err(GiveawayError::InsufficientFunds);
    }
    validate_minimum_winners_pool(
        total_payout_lamports,
        ctx.config.service_fee_bps,
        number_of_winners,
    )?;
    require_sufficient_lamports(&ctx.creator, total_payout_lamports)?;
    if pubkey_eq(&ctx.vault.key, &ctx.creator.key) {
        return Err(GiveawayError::InvalidAccount);
    }
    if !ctx.vault.data_is_empty || ctx.vault.lamports != 0 {
        return Err(GiveawayError::AccountAlreadyInitialized);
    }
    let funding = match vault_rent_lamports.checked_add(total_payout_lamports) {
        Some(f) => f,
        None => {
            return Err(GiveawayError::InsufficientFunds);
        },
    };
    if funding > ctx.creator.lamports {
        return Err(GiveawayError::InsufficientFunds);
    }
    let next = match ctx.config.next_giveaway_id.checked_add(1) {
        Some(n) => n,
        None => {
            return Err(GiveawayError::MathOverflow);
        },
    };
    let config_key = ctx.config_key;
    let creator_key = ctx.creator.key;
    let vault_key = ctx.vault.key;
    let fee_bps = ctx.config.service_fee_bps;
    ctx.giveaway.initialize(
        giveaway_id,
        config_key,
        creator_key,
        vault_key,
        total_payout_lamports,
        number_of_winners,
        fee_bps,
        active_start_unix,
        active_deadline_unix,
        upload_duration_secs,
        now,
    );
    let event = GiveawayEvent::GiveawayCreated {
        giveaway_id,
        giveaway: pubkey_to_string(&ctx.giveaway_key),
        creator: pubkey_to_string(&creator_key),
        config: pubkey_to_string(&config_key),
        vault: pubkey_to_string(&vault_key),
        total_payout_lamports,
        number_of_winners,
        active_start_unix,
        active_deadline_unix,
        upload_start_unix: active_deadline_unix,
        upload_deadline_unix,
        service_fee_bps: fee_bps,
        timestamp: now,
    };
    ctx.config.next_giveaway_id = next;
    ctx.creator.lamports = ctx.creator.lamports - funding;
    ctx.vault.lamports = funding;
    let events = vec![event];
    assert(events_view(events@) =~= seq![events@[0]@]);
    Ok(events)
}

/// A giveaway is created only under the configuration's next id, for one to
/// a thousand winners, with the participation window opening before it
/// closes, a non-zero payout, a fresh vault, and a creator able to fund the
/// vault's rent and the payout.
pub proof fn lemma_creation_requirements(
    ctx: CreateGiveaway,
    giveaway_id: u64,
    total_payout_lamports: u64,
    number_of_winners: u32,
    active_start_unix: i64,
    active_deadline_unix: i64,
    upload_duration_secs: u32,
    vault_rent_lamports: u64,
)
    ensures
        spec_create_error(
            ctx,
            giveaway_id,
            total_payout_lamports,
            number_of_winners,
            active_start_unix,
            active_deadline_unix,
            upload_duration_secs,
            vault_rent_lamports,
        ) is None ==> {
            &&& giveaway_id == ctx.config.next_giveaway_id
            &&& 1 <= number_of_winners <= 1000
            &&& active_start_unix < active_deadline_unix
            &&& total_payout_lamports > 0
            &&& ctx.vault.lamports == 0
            &&& ctx.vault.data_is_empty
            &&& ctx.creator.lamports >= vault_rent_lamports + total_payout_lamports
        },
{
}

} // verus!
