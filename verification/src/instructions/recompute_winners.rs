//! The legacy full recomputation of winners. Eligibility is fixed before the
//! upload window opens and finalization runs in chunks, so a recomputation
//! is always refused once the accounts pass their checks.
use vstd::prelude::*;
use crate::bytes::{pubkey_eq, Pubkey};
use crate::error::GiveawayError;
use crate::state::config::Config;
use crate::state::giveaway::Giveaway;
use crate::state::winners_ledger::WinnersLedger;

verus! {

/// Accounts of the recomputation request.
pub struct RecomputeWinners {
    pub config: Config,
    pub giveaway_key: Pubkey,
    pub giveaway: Giveaway,
    pub winners_ledger: WinnersLedger,
    /// The signing creator or authority.
    pub signer: Pubkey,
}

/// The error of a recomputation request: the first failing account check,
/// or the refusal itself.
pub open spec fn spec_recompute_error(ctx: RecomputeWinners) -> GiveawayError {
    if ctx.giveaway.settled {
        GiveawayError::GiveawayAlreadySettled
    } else if ctx.giveaway.winners_locked {
        GiveawayError::WinnersLocked
    } else if ctx.winners_ledger.giveaway@ != ctx.giveaway_key@ {
        GiveawayError::InvalidAccount
    } else if ctx.signer@ != ctx.giveaway.creator@ && ctx.signer@ != ctx.config.authority@ {
        GiveawayError::Unauthorized
    } else {
        GiveawayError::InvalidInstruction
    }
}

/// Refuses the legacy recomputation.
pub fn process(ctx: &RecomputeWinners) -> (result: Result<(), GiveawayError>)
    ensures
        result == Err::<(), _>(spec_recompute_error(*ctx)),
{
    if ctx.giveaway.settled {
        return Err(GiveawayError::GiveawayAlreadySettled);
    }
    if ctx.giveaway.winners_locked {
        return Err(GiveawayError::WinnersLocked);
    }
    if !pubkey_eq(&ctx.winners_ledger.giveaway, &ctx.giveaway_key) {
        return Err(GiveawayError::InvalidAccount);
    }
    if !pubkey_eq(&ctx.signer, &ctx.giveaway.creator) && !pubkey_eq(
        &ctx.signer,
        &ctx.config.authority,
    ) {
        return Err(GiveawayError::Unauthorized);
    }
    Err(GiveawayError::InvalidInstruction)
}

} // verus!
