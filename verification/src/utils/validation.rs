//! Validation of instruction parameters and account flags.
use vstd::prelude::*;
use vstd::string::StringSliceAdditionalSpecFns;
use crate::bytes::{is_all_zero, zero_bytes};
use crate::constants::{MAX_SERVICE_FEE_BPS, MAX_WINNERS, MIN_WINNERS, MIN_WINNER_PAYOUT_LAMPORTS};
use crate::error::GiveawayError;
use crate::state::giveaway::{spec_service_fee, spec_winners_pool};
use crate::state::participant::{spec_valid_reason_code, Participant};
use crate::utils::account::AccountSnapshot;

verus! {

/// Requires the account to be writable.
pub fn require_writable(account: &AccountSnapshot) -> (result: Result<(), GiveawayError>)
    ensures
        result == if account.is_writable {
            Ok(())
        } else {
            Err::<(), _>(GiveawayError::AccountNotWritable)
        },
{
    if !account.is_writable {
        return Err(GiveawayError::AccountNotWritable);
    }
    Ok(())
}

/// Requires the account to have signed.
pub fn require_signer(account: &AccountSnapshot) -> (result: Result<(), GiveawayError>)
    ensures
        result == if account.is_signer {
            Ok(())
        } else {
            Err::<(), _>(GiveawayError::MissingSigner)
        },
{
    if !account.is_signer {
        return Err(GiveawayError::MissingSigner);
    }
    Ok(())
}

/// Requires the account to hold data.
pub fn require_initialized(account: &AccountSnapshot) -> (result: Result<(), GiveawayError>)
    ensures
        result == if !account.data_is_empty {
            Ok(())
        } else {
            Err::<(), _>(GiveawayError::AccountNotInitialized)
        },
{
    if account.data_is_empty {
        return Err(GiveawayError::AccountNotInitialized);
    }
    Ok(())
}

/// Requires the account to hold no data.
pub fn require_not_initialized(account: &AccountSnapshot) -> (result: Result<(), GiveawayError>)
    ensures
        result == if account.data_is_empty {
            Ok(())
        } else {
            Err::<(), _>(GiveawayError::AccountAlreadyInitialized)
        },
{
    if !account.data_is_empty {
        return Err(GiveawayError::AccountAlreadyInitialized);
    }
    Ok(())
}

/// Requires `text` to be at most `max_length` bytes.
pub fn validate_string_length(text: &str, max_length: usize) -> (result: Result<(), GiveawayError>)
    ensures
        result == if text.spec_bytes().len() <= max_length {
            Ok(())
        } else {
            Err::<(), _>(GiveawayError::TextTooLong)
        },
{
    if !(text.as_bytes().len() <= max_length) {
        return Err(GiveawayError::TextTooLong);
    }
    Ok(())
}

/// Requires the service fee to be at most `MAX_SERVICE_FEE_BPS`.
pub fn validate_service_fee_bps(service_fee_bps: u16) -> (result: Result<(), GiveawayError>)
    ensures
        result == if service_fee_bps <= MAX_SERVICE_FEE_BPS {
            Ok(())
        } else {
            Err::<(), _>(GiveawayError::InvalidServiceFee)
        },
{
    if !(service_fee_bps <= MAX_SERVICE_FEE_BPS) {
        return Err(GiveawayError::InvalidServiceFee);
    }
    Ok(())
}

/// Requires the winner count to be within `MIN_WINNERS..=MAX_WINNERS`.
pub fn validate_winner_count(number_of_winners: u32) -> (result: Result<(), GiveawayError>)
    ensures
        result == if MIN_WINNERS <= number_of_winners <= MAX_WINNERS {
            Ok(())
        } else {
            Err::<(), _>(GiveawayError::InvalidWinnerCount)
        },
{
    if !(MIN_WINNERS <= number_of_winners && number_of_winners <= MAX_WINNERS) {
        return Err(GiveawayError::InvalidWinnerCount);
    }
    Ok(())
}

/// Requires the duration to be within `min_secs..=max_secs`.
pub fn validate_duration(duration_secs: u32, min_secs: u32, max_secs: u32) -> (result: Result<
    (),
    GiveawayError,
>)
    ensures
        result == if min_secs <= duration_secs <= max_secs {
            Ok(())
        } else {
            Err::<(), _>(GiveawayError::InvalidDuration)
        },
{
    if !(duration_secs >= min_secs && duration_secs <= max_secs) {
        return Err(GiveawayError::InvalidDuration);
    }
    Ok(())
}

/// Requires the start to come before the end.
pub fn validate_timing_sequence(start_time: i64, end_time: i64) -> (result: Result<
    (),
    GiveawayError,
>)
    ensures
        result == if start_time < end_time {
            Ok(())
        } else {
            Err::<(), _>(GiveawayError::InvalidTiming)
        },
{
    if !(start_time < end_time) {
        return Err(GiveawayError::InvalidTiming);
    }
    Ok(())
}

/// The winners pool can pay `MIN_WINNER_PAYOUT_LAMPORTS` to every winner.
pub open spec fn spec_minimum_winners_pool_ok(
    total_payout_lamports: u64,
    service_fee_bps: u16,
    number_of_winners: u32,
) -> bool {
    spec_winners_pool(total_payout_lamports, service_fee_bps) >= number_of_winners
        * MIN_WINNER_PAYOUT_LAMPORTS
}

/// Requires a funded giveaway to pay at least the minimum amount to every
/// winner after the service fee.
pub fn validate_minimum_winners_pool(
    total_payout_lamports: u64,
    service_fee_bps: u16,
    number_of_winners: u32,
) -> (result: Result<(), GiveawayError>)
    ensures
        result == if spec_minimum_winners_pool_ok(
            total_payout_lamports,
            service_fee_bps,
            number_of_winners,
        ) {
            Ok(())
        } else {
            Err::<(), _>(GiveawayError::InsufficientFunds)
        },
{
    let total = total_payout_lamports as u128;
    let bps = service_fee_bps as u128;
    assert(total * bps <= u64::MAX as int * u16::MAX as int) by (nonlinear_arith)
        requires
            total <= u64::MAX,
            bps <= u16::MAX,
    ;
    let quotient = total * bps / 10_000u128;
    let service_fee = (#[verifier::truncate] (quotient as u64));
    let winners_pool = total_payout_lamports.saturating_sub(service_fee);
    let minimum_winners_pool = match (number_of_winners as u64).checked_mul(
        MIN_WINNER_PAYOUT_LAMPORTS,
    ) {
        Some(minimum) => minimum,
        None => {
            return Err(GiveawayError::MathOverflow);
        },
    };
    if !(winners_pool >= minimum_winners_pool) {
        return Err(GiveawayError::InsufficientFunds);
    }
    Ok(())
}

/// Requires `start_time <= current_time < end_time`.
pub fn validate_time_window(current_time: i64, start_time: i64, end_time: i64) -> (result: Result<
    (),
    GiveawayError,
>)
    ensures
        result == if current_time < start_time {
            Err::<(), _>(GiveawayError::ActiveWindowNotStarted)
        } else if current_time >= end_time {
            Err::<(), _>(GiveawayError::ActiveWindowClosed)
        } else {
            Ok(())
        },
{
    if !(current_time >= start_time) {
        return Err(GiveawayError::ActiveWindowNotStarted);
    }
    if !(current_time < end_time) {
        return Err(GiveawayError::ActiveWindowClosed);
    }
    Ok(())
}

/// Requires the commitment hash to be non-zero.
pub fn validate_commitment_hash(commitment_hash: &[u8; 32]) -> (result: Result<
    (),
    GiveawayError,
>)
    ensures
        result == if commitment_hash@ != zero_bytes(32) {
            Ok(())
        } else {
            Err::<(), _>(GiveawayError::InvalidInstruction)
        },
{
    if is_all_zero(commitment_hash.as_slice()) {
        return Err(GiveawayError::InvalidInstruction);
    }
    Ok(())
}

/// Requires a known disqualification reason code.
pub fn validate_reason_code(reason_code: u8) -> (result: Result<(), GiveawayError>)
    ensures
        result == if spec_valid_reason_code(reason_code) {
            Ok(())
        } else {
            Err::<(), _>(GiveawayError::InvalidReasonCode)
        },
{
    if !Participant::validate_reason_code(reason_code) {
        return Err(GiveawayError::InvalidReasonCode);
    }
    Ok(())
}

/// Requires the account to hold at least `required_lamports`.
pub fn require_sufficient_lamports(account: &AccountSnapshot, required_lamports: u64) -> (result:
    Result<(), GiveawayError>)
    ensures
        result == if account.lamports >= required_lamports {
            Ok(())
        } else {
            Err::<(), _>(GiveawayError::InsufficientFunds)
        },
{
    if !(account.lamports >= required_lamports) {
        return Err(GiveawayError::InsufficientFunds);
    }
    Ok(())
}

/// A deposit accepted at creation pays every winner at least
/// `MIN_WINNER_PAYOUT_LAMPORTS` when the pool is split evenly over any
/// number of winners from one up to the requested count.
pub proof fn lemma_minimum_pool_pays_every_winner(
    total_payout_lamports: u64,
    service_fee_bps: u16,
    number_of_winners: u32,
    winners_count: u32,
)
    requires
        spec_minimum_winners_pool_ok(total_payout_lamports, service_fee_bps, number_of_winners),
        1 <= winners_count <= number_of_winners,
    ensures
        spec_winners_pool(total_payout_lamports, service_fee_bps) / (winners_count as u64)
            >= MIN_WINNER_PAYOUT_LAMPORTS,
{
    let pool = spec_winners_pool(total_payout_lamports, service_fee_bps) as int;
    let k = winners_count as int;
    assert(pool >= k);
    assert(pool / k >= 1) by (nonlinear_arith)
        requires
            pool >= k,
            k >= 1,
    ;
}

/// The winners' equal shares and the service fee together never exceed the
/// deposit, for any fee rate the configuration accepts.
pub proof fn lemma_payouts_and_fee_within_deposit(
    total_payout_lamports: u64,
    service_fee_bps: u16,
    winners_count: u32,
)
    requires
        service_fee_bps <= MAX_SERVICE_FEE_BPS,
        winners_count >= 1,
    ensures
        winners_count * (spec_winners_pool(total_payout_lamports, service_fee_bps) / (
        winners_count as u64)) + spec_service_fee(total_payout_lamports, service_fee_bps)
            <= total_payout_lamports,
{
    let total = total_payout_lamports as int;
    let bps = service_fee_bps as int;
    assert(total * bps / 10_000 <= total) by (nonlinear_arith)
        requires
            0 <= total,
            0 <= bps <= 9999,
    ;
    assert(0 <= total * bps / 10_000) by (nonlinear_arith)
        requires
            0 <= total,
            0 <= bps,
    ;
    let fee = spec_service_fee(total_payout_lamports, service_fee_bps);
    assert(fee == total * bps / 10_000);
    let pool = spec_winners_pool(total_payout_lamports, service_fee_bps);
    assert(pool == total - fee);
    let k = winners_count as int;
    let p = pool as int;
    assert(k * (p / k) <= p) by (nonlinear_arith)
        requires
            k >= 1,
            p >= 0,
    ;
    assert(pool / (winners_count as u64) == p / k);
}

} // verus!
