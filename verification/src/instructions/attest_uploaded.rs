//! Receipt-based attestation: a participant (or anyone relaying for them)
//! proves with a provider receipt, an Ed25519 instruction signed by the
//! configured authority earlier in the transaction, that the participant's
//! reveal was uploaded. The provider must then include every attested reveal.
use vstd::prelude::*;
use crate::address::{
    ed25519_program_id, get_instruction_relative, instructions_sysvar_id, pubkey_to_string,
    spec_ed25519_program_id, spec_instruction_relative, spec_instructions_sysvar_id,
    spec_pubkey_base58,
};
use crate::bytes::{append_bytes, bytes_eq, le16, pubkey_eq, read_le_u16, to_array32, Pubkey};
use crate::constants::{giveaway_attestation_domain_v1, spec_giveaway_attestation_domain_v1};
use crate::error::GiveawayError;
use crate::events::{events_view, GiveawayEvent, GiveawayEventView};
use crate::state::config::Config;
use crate::state::giveaway::Giveaway;
use crate::state::participant::Participant;

verus! {

/// The signer and message of an Ed25519 verification instruction with one
/// signature whose signature, key and message all sit in the instruction's
/// own data: byte 0 is the signature count (1), then seven little-endian
/// `u16` fields from byte 2 (signature offset and instruction index, key
/// offset and index, message offset, size and index). Any other shape, a
/// reference to another instruction (index other than `u16::MAX`) or an
/// offset past the data gives `None`.
pub open spec fn spec_parse_ed25519(data: Seq<u8>) -> Option<(Seq<u8>, Seq<u8>)> {
    if data.len() < 16 || data[0] != 1 {
        None
    } else {
        let signature_offset = le16(data.subrange(2, 4));
        let signature_index = le16(data.subrange(4, 6));
        let pubkey_offset = le16(data.subrange(6, 8));
        let pubkey_index = le16(data.subrange(8, 10));
        let message_offset = le16(data.subrange(10, 12));
        let message_size = le16(data.subrange(12, 14));
        let message_index = le16(data.subrange(14, 16));
        if signature_index != 0xffff || pubkey_index != 0xffff || message_index != 0xffff {
            None
        } else if signature_offset + 64 > data.len() || pubkey_offset + 32 > data.len()
            || message_offset + message_size > data.len() {
            None
        } else {
            Some(
                (
                    data.subrange(pubkey_offset, pubkey_offset + 32),
                    data.subrange(message_offset, message_offset + message_size),
                ),
            )
        }
    }
}

fn read_u16_at(data: &[u8], offset: usize) -> (v: u16)
    requires
        offset + 2 <= data@.len(),
    ensures
        v == le16(data@.subrange(offset as int, offset + 2)),
{
    let _n = data.len();
    read_le_u16(vstd::slice::slice_subrange(data, offset, offset + 2))
}

/// Reads the signer key and message of an Ed25519 verification instruction
/// whose parts all sit in its own data.
pub fn parse_ed25519_ix(data: &[u8]) -> (parsed: Option<([u8; 32], Vec<u8>)>)
    ensures
        match parsed {
            Some(found) => spec_parse_ed25519(data@) == Some((found.0@, found.1@)),
            None => spec_parse_ed25519(data@) is None,
        },
{
    if data.len() < 16 || data[0] != 1 {
        return None;
    }
    let signature_offset = read_u16_at(data, 2) as usize;
    let signature_instruction_index = read_u16_at(data, 4);
    let pubkey_offset = read_u16_at(data, 6) as usize;
    let pubkey_instruction_index = read_u16_at(data, 8);
    let message_offset = read_u16_at(data, 10) as usize;
    let message_size = read_u16_at(data, 12) as usize;
    let message_instruction_index = read_u16_at(data, 14);
    if signature_instruction_index != u16::MAX || pubkey_instruction_index != u16::MAX
        || message_instruction_index != u16::MAX {
        return None;
    }
    if signature_offset + 64 > data.len() || pubkey_offset + 32 > data.len() || message_offset
        + message_size > data.len() {
        return None;
    }
    let pubkey = to_array32(vstd::slice::slice_subrange(data, pubkey_offset, pubkey_offset + 32));
    let message = vstd::slice::slice_to_vec(
        vstd::slice::slice_subrange(data, message_offset, message_offset + message_size),
    );
    Some((pubkey, message))
}

/// The receipt message the provider signs: the attestation domain, then the
/// giveaway, the participant wallet and the commitment.
pub open spec fn spec_receipt_message(
    giveaway: Seq<u8>,
    participant: Seq<u8>,
    commitment_hash: Seq<u8>,
) -> Seq<u8> {
    spec_giveaway_attestation_domain_v1() + giveaway + participant + commitment_hash
}

/// An instruction is a provider receipt: an Ed25519 verification
/// instruction whose signer is `authority` and whose message is `expected`.
pub open spec fn spec_is_receipt(
    program_id: Seq<u8>,
    data: Seq<u8>,
    authority: Seq<u8>,
    expected: Seq<u8>,
) -> bool {
    &&& program_id == spec_ed25519_program_id()
    &&& match spec_parse_ed25519(data) {
        Some(found) => found.0 == authority && found.1 == expected,
        None => false,
    }
}

/// Whether an instruction is a provider receipt.
pub fn is_provider_receipt(
    ix_program_id: &Pubkey,
    ix_data: &[u8],
    authority: &Pubkey,
    expected: &[u8],
) -> (found: bool)
    ensures
        found == spec_is_receipt(ix_program_id@, ix_data@, authority@, expected@),
{
    let ed25519 = ed25519_program_id();
    if !pubkey_eq(ix_program_id, &ed25519) {
        return false;
    }
    match parse_ed25519_ix(ix_data) {
        Some(parsed) => pubkey_eq(&parsed.0, authority) && bytes_eq(parsed.1.as_slice(), expected),
        None => false,
    }
}

/// One of the ten instructions before the executing one is a provider
/// receipt for this giveaway, participant and commitment.
pub open spec fn spec_receipt_present(
    sysvar_data: Seq<u8>,
    authority: Seq<u8>,
    giveaway: Seq<u8>,
    participant: Seq<u8>,
    commitment_hash: Seq<u8>,
) -> bool {
    exists|rel: i64|
        -10 <= rel <= -1 && #[trigger] spec_receipt_at(
            sysvar_data,
            rel,
            authority,
            spec_receipt_message(giveaway, participant, commitment_hash),
        )
}

/// The instruction at `rel` from the executing one is a provider receipt
/// by `authority` for `message`.
pub open spec fn spec_receipt_at(
    sysvar_data: Seq<u8>,
    rel: i64,
    authority: Seq<u8>,
    message: Seq<u8>,
) -> bool {
    match spec_instruction_relative(rel, sysvar_data) {
        Some(ix) => spec_is_receipt(ix.0, ix.1, authority, message),
        None => false,
    }
}

fn verify_provider_receipt(
    instructions_sysvar: &Pubkey,
    sysvar_data: &[u8],
    authority: &Pubkey,
    giveaway: &Pubkey,
    participant: &Pubkey,
    commitment_hash: &[u8; 32],
) -> (result: Result<(), GiveawayError>)
    requires
        instructions_sysvar@ == spec_instructions_sysvar_id(),
        sysvar_data@.len() >= 2,
    ensures
        result == if spec_receipt_present(
            sysvar_data@,
            authority@,
            giveaway@,
            participant@,
            commitment_hash@,
        ) {
            Ok::<(), GiveawayError>(())
        } else {
            Err(GiveawayError::InvalidAttestation)
        },
{
    let mut expected = giveaway_attestation_domain_v1();
    append_bytes(&mut expected, giveaway.as_slice());
    append_bytes(&mut expected, participant.as_slice());
    append_bytes(&mut expected, commitment_hash.as_slice());
    let ghost message = spec_receipt_message(giveaway@, participant@, commitment_hash@);
    assert(expected@ =~= message);
    let mut rel: i64 = -10;
    while rel <= -1
        invariant
            -10 <= rel <= 0,
            expected@ == message,
            message == spec_receipt_message(giveaway@, participant@, commitment_hash@),
            instructions_sysvar@ == spec_instructions_sysvar_id(),
            sysvar_data@.len() >= 2,
            forall|r: i64| -10 <= r < rel ==> !#[trigger] spec_receipt_at(sysvar_data@, r, authority@, message),
        decreases 0 - rel,
    {
        match get_instruction_relative(rel, instructions_sysvar, sysvar_data) {
            Some(ix) => {
                if is_provider_receipt(&ix.0, ix.1.as_slice(), authority, expected.as_slice()) {
                    assert(spec_receipt_at(sysvar_data@, rel, authority@, message));
                    assert(spec_receipt_present(
                        sysvar_data@,
                        authority@,
                        giveaway@,
                        participant@,
                        commitment_hash@,
                    ));
                    return Ok(());
                }
                assert(!spec_receipt_at(sysvar_data@, rel, authority@, message));
            },
            None => {
                assert(!spec_receipt_at(sysvar_data@, rel, authority@, message));
            },
        }
        rel = rel + 1;
    }
    assert(!spec_receipt_present(
        sysvar_data@,
        authority@,
        giveaway@,
        participant@,
        commitment_hash@,
    ));
    Err(GiveawayError::InvalidAttestation)
}

/// Accounts of the receipt attestation.
pub struct AttestUploaded {
    pub config: Config,
    pub giveaway_key: Pubkey,
    pub giveaway: Giveaway,
    pub participant_account_key: Pubkey,
    pub participant_account: Participant,
    /// The participant wallet; it need not sign, so a receipt can be relayed.
    pub participant: Pubkey,
    pub instructions_sysvar: Pubkey,
    pub instructions_sysvar_data: Vec<u8>,
}

/// The first check a receipt attestation at `now` fails, if any.
pub open spec fn spec_attest_uploaded_error(ctx: AttestUploaded, now: i64) -> Option<GiveawayError> {
    let g = ctx.giveaway;
    let p = ctx.participant_account;
    if p.giveaway@ != ctx.giveaway_key@ {
        Some(GiveawayError::InvalidAccount)
    } else if p.wallet@ != ctx.participant@ {
        Some(GiveawayError::InvalidAccount)
    } else if ctx.instructions_sysvar@ != spec_instructions_sysvar_id() {
        Some(GiveawayError::InvalidAccount)
    } else if g.settled {
        Some(GiveawayError::GiveawayAlreadySettled)
    } else if !(now >= g.upload_start_unix && now < g.upload_deadline_unix) {
        Some(GiveawayError::UploadWindowClosed)
    } else if p.attested_uploaded {
        Some(GiveawayError::AlreadyAttested)
    } else if p.disqualified {
        Some(GiveawayError::AlreadyDisqualified)
    } else if !spec_receipt_present(
        ctx.instructions_sysvar_data@,
        ctx.config.authority@,
        ctx.giveaway_key@,
        ctx.participant@,
        p.commitment_hash@,
    ) {
        Some(GiveawayError::InvalidAttestation)
    } else if g.attested_count == u64::MAX {
        Some(GiveawayError::MathOverflow)
    } else {
        None
    }
}

/// Records a receipt-backed attestation: the entry is marked attested and
/// the giveaway counts one more attester.
pub fn process(ctx: &mut AttestUploaded, now: i64) -> (result: Result<Vec<GiveawayEvent>, GiveawayError>)
    requires
        old(ctx).instructions_sysvar@ == spec_instructions_sysvar_id()
            ==> old(ctx).instructions_sysvar_data@.len() >= 2,
    ensures
        result is Err ==> *final(ctx) == *old(ctx),
        old(ctx).giveaway.winners_locked ==> final(ctx).giveaway.winners_locked,
        spec_attest_uploaded_error(*old(ctx), now) matches Some(e) ==> result == Err::<
            Vec<GiveawayEvent>,
            _,
        >(e),
        spec_attest_uploaded_error(*old(ctx), now) is None ==> (result matches Ok(events)
            && *final(ctx) == (AttestUploaded {
            participant_account: Participant {
                attested_uploaded: true,
                attested_at_unix: now,
                last_updated_unix: now,
                ..old(ctx).participant_account
            },
            giveaway: Giveaway {
                attested_count: (old(ctx).giveaway.attested_count + 1) as u64,
                ..old(ctx).giveaway
            },
            ..*old(ctx)
        }) && events_view(events@) == seq![
            GiveawayEventView::AttestationSubmitted {
                giveaway_id: old(ctx).giveaway.id,
                giveaway: spec_pubkey_base58(old(ctx).giveaway_key@),
                participant: spec_pubkey_base58(old(ctx).participant@),
                participant_account: spec_pubkey_base58(old(ctx).participant_account_key@),
                timestamp: now,
            },
        ]),
{
    if !pubkey_eq(&ctx.participant_account.giveaway, &ctx.giveaway_key) {
        return Err(GiveawayError::InvalidAccount);
    }
    if !pubkey_eq(&ctx.participant_account.wallet, &ctx.participant) {
        return Err(GiveawayError::InvalidAccount);
    }
    let sysvar_id = instructions_sysvar_id();
    if !pubkey_eq(&ctx.instructions_sysvar, &sysvar_id) {
        return Err(GiveawayError::InvalidAccount);
    }
    if ctx.giveaway.settled {
        return Err(GiveawayError::GiveawayAlreadySettled);
    }
    if !ctx.giveaway.is_in_upload_phase(now) {
        return Err(GiveawayError::UploadWindowClosed);
    }
    if ctx.participant_account.attested_uploaded {
        return Err(GiveawayError::AlreadyAttested);
    }
    if ctx.participant_account.disqualified {
        return Err(GiveawayError::AlreadyDisqualified);
    }
    verify_provider_receipt(
        &ctx.instructions_sysvar,
        ctx.instructions_sysvar_data.as_slice(),
        &ctx.config.authority,
        &ctx.giveaway_key,
        &ctx.participant,
        &ctx.participant_account.commitment_hash,
    )?;
    ctx.giveaway.add_attestation()?;
    ctx.participant_account.mark_attested(now);
    let event = GiveawayEvent::AttestationSubmitted {
        giveaway_id: ctx.giveaway.id,
        giveaway: pubkey_to_string(&ctx.giveaway_key),
        participant: pubkey_to_string(&ctx.participant),
        participant_account: pubkey_to_string(&ctx.participant_account_key),
        timestamp: now,
    };
    let events = vec![event];
    assert(events_view(events@) =~= seq![events@[0]@]);
    Ok(events)
}

/// A receipt attestation is accepted only during the upload window, for an
/// entry of this giveaway held by the named wallet that is neither attested
/// nor disqualified, and only with a provider receipt among the ten
/// preceding instructions.
pub proof fn lemma_receipt_attestation_needs_open_window_and_receipt(
    ctx: AttestUploaded,
    now: i64,
)
    ensures
        spec_attest_uploaded_error(ctx, now) is None ==> {
            &&& !ctx.giveaway.settled
            &&& ctx.giveaway.upload_start_unix <= now
            &&& now < ctx.giveaway.upload_deadline_unix
            &&& ctx.participant_account.giveaway@ == ctx.giveaway_key@
            &&& ctx.participant_account.wallet@ == ctx.participant@
            &&& !ctx.participant_account.attested_uploaded
            &&& !ctx.participant_account.disqualified
            &&& spec_receipt_present(
                ctx.instructions_sysvar_data@,
                ctx.config.authority@,
                ctx.giveaway_key@,
                ctx.participant@,
                ctx.participant_account.commitment_hash@,
            )
        },
{
}

} // verus!
