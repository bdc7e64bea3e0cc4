//! Errors returned by the giveaways program.
use vstd::prelude::*;

verus! {

/// Every way an instruction of the giveaways program can be refused.
#[derive(Debug, Clone, Copy, PartialEq, Eq, Structural)]
pub enum GiveawayError {
    /// Unauthorized: Only the authority can perform this action
    Unauthorized,
    /// Invalid instruction: Operation not allowed in current state
    InvalidInstruction,
    /// Giveaway already settled: Cannot modify settled giveaway
    GiveawayAlreadySettled,
    /// Invalid timing: Start time must be before deadline
    InvalidTiming,
    /// Active window closed: Cannot participate after deadline
    ActiveWindowClosed,
    /// Active window not started: Cannot participate before start time
    ActiveWindowNotStarted,
    /// Upload window closed: Cannot attest after upload deadline
    UploadWindowClosed,
    /// Upload window not started: Cannot attest before upload start
    UploadWindowNotStarted,
    /// Invalid attestation: Provider receipt signature is invalid or missing
    InvalidAttestation,
    /// Settlement not ready: Upload window must end, all participants must attest, or uploads must complete
    SettlementNotReady,
    /// Text too long: Exceeds maximum allowed length
    TextTooLong,
    /// Invalid service fee: Must be between 0 and 9999 basis points
    InvalidServiceFee,
    /// Invalid winner count: Must be between 1 and 1000
    InvalidWinnerCount,
    /// Participant limit reached for this giveaway
    TooManyParticipants,
    /// Invalid duration: Duration outside allowed range
    InvalidDuration,
    /// Insufficient funds: Not enough lamports for payout and fees
    InsufficientFunds,
    /// Invalid reveal: Plaintext does not match commitment hash
    InvalidReveal,
    /// Participant not found: No participation record exists
    ParticipantNotFound,
    /// Already attested: Participant has already attested upload
    AlreadyAttested,
    /// Not attested: Participant must attest before settlement
    NotAttested,
    /// Already disqualified: Participant is already disqualified
    AlreadyDisqualified,
    /// Winners not computed: Must finalize winners before settlement
    WinnersNotComputed,
    /// Winners locked: Cannot modify winners after locking
    WinnersLocked,
    /// Winners not locked: Winner set must be locked before payout settlement
    WinnersNotLocked,
    /// Invalid merkle proof: Proof verification failed
    InvalidMerkleProof,
    /// Already paid: Winner has already been paid
    AlreadyPaid,
    /// Invalid batch: Batch index out of range
    InvalidBatch,
    /// Deadline passed: Cannot extend deadline after it has passed
    DeadlinePassed,
    /// Cannot shorten: New deadline must be later than current
    CannotShorten,
    /// Math overflow: Arithmetic operation overflowed
    MathOverflow,
    /// Division by zero: Cannot divide by zero
    DivisionByZero,
    /// Invalid account: Account does not match expected PDA
    InvalidAccount,
    /// Account not writable: Account must be writable for this operation
    AccountNotWritable,
    /// Missing signer: Required signature not provided
    MissingSigner,
    /// Invalid program: Account not owned by expected program
    InvalidProgram,
    /// Account already initialized: Cannot initialize twice
    AccountAlreadyInitialized,
    /// Account not initialized: Account must be initialized first
    AccountNotInitialized,
    /// Reveal already included: Participant reveal already processed
    RevealAlreadyIncluded,
    /// Missing attested participants: Some attested participants not included in reveals
    MissingAttestedParticipants,
    /// No eligible participants: Cannot compute winners without eligible participants
    NoEligibleParticipants,
    /// Giveaway not found: Giveaway account does not exist
    GiveawayNotFound,
    /// Invalid giveaway ID: Giveaway ID must be unique
    InvalidGiveawayId,
    /// Creator mismatch: Only giveaway creator can perform this action
    CreatorMismatch,
    /// Invalid reason code: Disqualification reason code is invalid
    InvalidReasonCode,
    /// Early upload disabled: Build must enable the allow-early-upload feature
    EarlyUploadDisabled,
}

} // verus!
