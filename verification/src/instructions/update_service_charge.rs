//! Authority-only update of the global service fee rate; giveaways keep the
//! rate they were created with.
use vstd::prelude::*;
use crate::bytes::{pubkey_eq, Pubkey};
use crate::constants::MAX_SERVICE_FEE_BPS;
use crate::error::GiveawayError;
use crate::state::config::Config;
use crate::utils::validation::validate_service_fee_bps;

verus! {

/// Accounts of the fee update.
pub struct UpdateServiceCharge {
    pub config: Config,
    /// The signing authority.
    pub authority: Pubkey,
}

/// The first check of a fee update that fails, if any.
pub open spec fn spec_update_service_charge_error(ctx: UpdateServiceCharge, new_service_fee_bps: u16) -> Option<
    GiveawayError,
> {
    if ctx.config.authority@ != ctx.authority@ {
        Some(GiveawayError::Unauthorized)
    } else if new_service_fee_bps > MAX_SERVICE_FEE_BPS {
        Some(GiveawayError::InvalidServiceFee)
    } else {
        None
    }
}

/// Sets the service fee rate at `now`.
pub fn process(ctx: &mut UpdateServiceCharge, new_service_fee_bps: u16, now: i64) -> (result:
    Result<(), GiveawayError>)
    ensures
        result is Err ==> *final(ctx) == *old(ctx),
        spec_update_service_charge_error(*old(ctx), new_service_fee_bps) matches Some(e) ==> result
            == Err::<(), _>(e),
        spec_update_service_charge_error(*old(ctx), new_service_fee_bps) is None ==> result is Ok
            && *final(ctx) == (UpdateServiceCharge {
            config: Config {
                service_fee_bps: new_service_fee_bps,
                last_updated_unix: now,
                ..old(ctx).config
            },
            ..*old(ctx)
        }),
{
    if !pubkey_eq(&ctx.config.authority, &ctx.authority) {
        return Err(GiveawayError::Unauthorized);
    }
    validate_service_fee_bps(new_service_fee_bps)?;
    ctx.config.update_service_fee(new_service_fee_bps, now);
    Ok(())
}

} // verus!
