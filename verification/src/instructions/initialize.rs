//! Sets up the program configuration, once per deployment.
use vstd::prelude::*;
use crate::bytes::Pubkey;
use crate::constants::{
    MAX_ACTIVE_DURATION_SECS, MAX_SERVICE_FEE_BPS, MAX_UPLOAD_DURATION_SECS,
    MIN_ACTIVE_DURATION_SECS, MIN_UPLOAD_DURATION_SECS,
};
use crate::error::GiveawayError;
use crate::state::config::Config;
use crate::utils::validation::{validate_duration, validate_service_fee_bps};

verus! {

/// Accounts of the configuration setup.
pub struct Initialize {
    /// The configuration account: blank (all zero) when it was just created.
    pub config: Config,
    /// The signing authority the configuration will name.
    pub authority: Pubkey,
}

/// The first parameter check of a setup that fails, if any.
pub open spec fn spec_initialize_error(
    config: Config,
    service_fee_bps: u16,
    default_active_duration_secs: u32,
    default_upload_duration_secs: u32,
) -> Option<GiveawayError> {
    if config.next_giveaway_id != 0 {
        Some(GiveawayError::AccountAlreadyInitialized)
    } else if service_fee_bps > MAX_SERVICE_FEE_BPS {
        Some(GiveawayError::InvalidServiceFee)
    } else if !(MIN_ACTIVE_DURATION_SECS <= default_active_duration_secs
        <= MAX_ACTIVE_DURATION_SECS) {
        Some(GiveawayError::InvalidDuration)
    } else if !(MIN_UPLOAD_DURATION_SECS <= default_upload_duration_secs
        <= MAX_UPLOAD_DURATION_SECS) {
        Some(GiveawayError::InvalidDuration)
    } else {
        None
    }
}

/// Validates the fee and the default windows and writes the configuration
/// with the signer as authority; giveaway ids start at 1. A configuration
/// that was already written (its next giveaway id is set) is refused.
pub fn process(
    ctx: &mut Initialize,
    service_fee_bps: u16,
    default_active_duration_secs: u32,
    default_upload_duration_secs: u32,
    now: i64,
) -> (result: Result<(), GiveawayError>)
    ensures
        result is Err ==> *final(ctx) == *old(ctx),
        spec_initialize_error(
            old(ctx).config,
            service_fee_bps,
            default_active_duration_secs,
            default_upload_duration_secs,
        ) matches Some(e) ==> result == Err::<(), _>(e),
        spec_initialize_error(
            old(ctx).config,
            service_fee_bps,
            default_active_duration_secs,
            default_upload_duration_secs,
        ) is None ==> {
            &&& result is Ok
            &&& final(ctx).authority == old(ctx).authority
            &&& final(ctx).config.reserved@ == Seq::new(64, |i: int| 0u8)
            &&& final(ctx).config == (Config {
                authority: old(ctx).authority,
                service_fee_bps,
                default_active_duration_secs,
                default_upload_duration_secs,
                created_at_unix: now,
                last_updated_unix: now,
                next_giveaway_id: 1,
                reserved: final(ctx).config.reserved,
            })
        },
{
    if ctx.config.next_giveaway_id != 0 {
        return Err(GiveawayError::AccountAlreadyInitialized);
    }
    validate_service_fee_bps(service_fee_bps)?;
    validate_duration(
        default_active_duration_secs,
        MIN_ACTIVE_DURATION_SECS,
        MAX_ACTIVE_DURATION_SECS,
    )?;
    validate_duration(
        default_upload_duration_secs,
        MIN_UPLOAD_DURATION_SECS,
        MAX_UPLOAD_DURATION_SECS,
    )?;
    let authority = ctx.authority;
    ctx.config.initialize(
        authority,
        service_fee_bps,
        default_active_duration_secs,
        default_upload_duration_secs,
        now,
    );
    Ok(())
}

/// Setup happens once: a configuration that a successful setup wrote (its
/// next giveaway id is at least 1, and ids only grow) refuses every later
/// setup, whatever its parameters.
pub proof fn lemma_initialize_once(
    config: Config,
    service_fee_bps: u16,
    default_active_duration_secs: u32,
    default_upload_duration_secs: u32,
)
    requires
        config.next_giveaway_id >= 1,
    ensures
        spec_initialize_error(
            config,
            service_fee_bps,
            default_active_duration_secs,
            default_upload_duration_secs,
        ) == Some(GiveawayError::AccountAlreadyInitialized),
{
}

} // verus!
