//! The participant's own reveal path: during the upload window a participant
//! opens their commitment on chain without a provider receipt; the reveal
//! digest is stored in the entry and folded into the giveaway aggregate.
use vstd::prelude::*;
use vstd::string::StringSliceAdditionalSpecFns;
use vstd::utf8::encode_utf8;
use crate::address::{pubkey_to_string, spec_pubkey_base58};
use crate::bytes::{pubkey_eq, Pubkey};
use crate::constants::{MAX_LUCKY_WORDS_LEN, MAX_SALT_LEN};
use crate::error::GiveawayError;
use crate::events::{events_view, GiveawayEvent, GiveawayEventView};
use crate::hashing::{hex_encode, spec_hex_lower, spec_sha256};
use crate::state::config::Config;
use crate::state::giveaway::Giveaway;
use crate::state::participant::{spec_overwrite, Participant};
use crate::utils::crypto::{
    build_reveal_plaintext, compute_reveal_digest, spec_reveal_digest, spec_reveal_plaintext,
    spec_xor_all, verify_reveal, xor32, xor_reveal_digests,
};

verus! {

/// Accounts of the direct reveal.
pub struct AttestReveal {
    pub config_key: Pubkey,
    pub config: Config,
    pub giveaway_key: Pubkey,
    pub giveaway: Giveaway,
    pub participant_account_key: Pubkey,
    pub participant_account: Participant,
    /// The signing participant wallet.
    pub participant: Pubkey,
}

/// The first check of a direct reveal at `now` that fails, if any.
pub open spec fn spec_attest_reveal_error(
    ctx: AttestReveal,
    lucky_words: Seq<char>,
    salt: Seq<u8>,
    now: i64,
) -> Option<GiveawayError> {
    let g = ctx.giveaway;
    let p = ctx.participant_account;
    let words = encode_utf8(lucky_words);
    if g.settled {
        Some(GiveawayError::GiveawayAlreadySettled)
    } else if g.config@ != ctx.config_key@ {
        Some(GiveawayError::InvalidAccount)
    } else if p.giveaway@ != ctx.giveaway_key@ {
        Some(GiveawayError::InvalidAccount)
    } else if p.wallet@ != ctx.participant@ {
        Some(GiveawayError::InvalidAccount)
    } else if !(now >= g.upload_start_unix && now < g.upload_deadline_unix) {
        Some(GiveawayError::UploadWindowClosed)
    } else if p.disqualified {
        Some(GiveawayError::AlreadyDisqualified)
    } else if p.reveal_included {
        Some(GiveawayError::RevealAlreadyIncluded)
    } else if words.len() > MAX_LUCKY_WORDS_LEN || salt.len() > MAX_SALT_LEN {
        Some(GiveawayError::TextTooLong)
    } else if spec_sha256(spec_reveal_plaintext(words, salt)) != p.commitment_hash@ {
        Some(GiveawayError::InvalidReveal)
    } else if !p.attested_uploaded && g.attested_count == u64::MAX {
        Some(GiveawayError::MathOverflow)
    } else if g.provider_uploaded_count == u64::MAX {
        Some(GiveawayError::MathOverflow)
    } else {
        None
    }
}

/// Verifies the participant's reveal against their commitment and includes
/// it: an entry not yet attested is attested on the way, the reveal digest is
/// stored in the entry, and the giveaway counts the reveal and folds its
/// digest into the aggregate.
pub fn process(ctx: &mut AttestReveal, lucky_words: String, salt: Vec<u8>, now: i64) -> (result:
    Result<Vec<GiveawayEvent>, GiveawayError>)
    ensures
        result is Err ==> *final(ctx) == *old(ctx),
        old(ctx).giveaway.winners_locked ==> final(ctx).giveaway.winners_locked,
        spec_attest_reveal_error(*old(ctx), lucky_words@, salt@, now) matches Some(e) ==> result
            == Err::<Vec<GiveawayEvent>, _>(e),
        spec_attest_reveal_error(*old(ctx), lucky_words@, salt@, now) is None ==> (result matches Ok(
            events,
        ) && {
            let g = old(ctx).giveaway;
            let p = old(ctx).participant_account;
            let text = spec_reveal_plaintext(encode_utf8(lucky_words@), salt@);
            let digest = spec_reveal_digest(old(ctx).participant@, text);
            let aggregate = xor32(g.poc_aggregate_hash@, digest);
            let newly_attested = !p.attested_uploaded;
            let attested = if newly_attested {
                (g.attested_count + 1) as u64
            } else {
                g.attested_count
            };
            let uploaded = (g.provider_uploaded_count + 1) as u64;
            let complete = attested > 0 && uploaded >= attested;
            let revealed = GiveawayEventView::RevealsUploaded {
                giveaway_id: g.id,
                giveaway: spec_pubkey_base58(old(ctx).giveaway_key@),
                authority: spec_pubkey_base58(old(ctx).participant@),
                batch_size: 1,
                total_reveals_uploaded: uploaded,
                total_attested: attested,
                aggregate_hash: spec_hex_lower(aggregate),
                uploads_complete: complete,
                timestamp: now,
            };
            &&& final(ctx).participant_account.reserved@ == spec_overwrite(p.reserved@, 16, digest)
            &&& final(ctx).participant_account == (Participant {
                attested_uploaded: true,
                attested_at_unix: if newly_attested {
                    now
                } else {
                    p.attested_at_unix
                },
                reveal_included: true,
                last_updated_unix: now,
                reserved: final(ctx).participant_account.reserved,
                ..p
            })
            &&& final(ctx).giveaway.poc_aggregate_hash@ == aggregate
            &&& final(ctx).giveaway == (Giveaway {
                attested_count: attested,
                provider_uploaded_count: uploaded,
                poc_aggregate_hash: final(ctx).giveaway.poc_aggregate_hash,
                uploads_complete: complete,
                ..g
            })
            &&& final(ctx).config_key == old(ctx).config_key
            &&& final(ctx).config == old(ctx).config
            &&& final(ctx).giveaway_key == old(ctx).giveaway_key
            &&& final(ctx).participant_account_key == old(ctx).participant_account_key
            &&& final(ctx).participant == old(ctx).participant
            &&& events_view(events@) == if newly_attested {
                seq![
                    GiveawayEventView::AttestationSubmitted {
                        giveaway_id: g.id,
                        giveaway: spec_pubkey_base58(old(ctx).giveaway_key@),
                        participant: spec_pubkey_base58(old(ctx).participant@),
                        participant_account: spec_pubkey_base58(old(ctx).participant_account_key@),
                        timestamp: now,
                    },
                    revealed,
                ]
            } else {
                seq![revealed]
            }
        }),
{
    if ctx.giveaway.settled {
        return Err(GiveawayError::GiveawayAlreadySettled);
    }
    if !pubkey_eq(&ctx.giveaway.config, &ctx.config_key) {
        return Err(GiveawayError::InvalidAccount);
    }
    if !pubkey_eq(&ctx.participant_account.giveaway, &ctx.giveaway_key) {
        return Err(GiveawayError::InvalidAccount);
    }
    if !pubkey_eq(&ctx.participant_account.wallet, &ctx.participant) {
        return Err(GiveawayError::InvalidAccount);
    }
    if !ctx.giveaway.is_in_upload_phase(now) {
        return Err(GiveawayError::UploadWindowClosed);
    }
    if ctx.participant_account.disqualified {
        return Err(GiveawayError::AlreadyDisqualified);
    }
    if ctx.participant_account.reveal_included {
        return Err(GiveawayError::RevealAlreadyIncluded);
    }
    let words = lucky_words.as_str();
    if !(words.as_bytes().len() <= MAX_LUCKY_WORDS_LEN && salt.len() <= MAX_SALT_LEN) {
        return Err(GiveawayError::TextTooLong);
    }
    if !verify_reveal(&ctx.participant_account.commitment_hash, words, salt.as_slice())? {
        return Err(GiveawayError::InvalidReveal);
    }
    let plaintext = build_reveal_plaintext(words, salt.as_slice())?;
    let reveal_digest = compute_reveal_digest(&ctx.participant, plaintext.as_slice());
    let mut digests: Vec<[u8; 32]> = Vec::new();
    digests.push(reveal_digest);
    let aggregate_hash = xor_reveal_digests(ctx.giveaway.poc_aggregate_hash, digests.as_slice());
    proof {
        let init = old(ctx).giveaway.poc_aggregate_hash@;
        assert(digests@.drop_last() =~= Seq::<[u8; 32]>::empty());
        assert(spec_xor_all(init, Seq::<[u8; 32]>::empty()) == init);
        assert(digests@.last() == reveal_digest);
        assert(aggregate_hash@ == xor32(init, reveal_digest@));
    }
    if (!ctx.participant_account.attested_uploaded && ctx.giveaway.attested_count == u64::MAX)
        || ctx.giveaway.provider_uploaded_count == u64::MAX {
        return Err(GiveawayError::MathOverflow);
    }
    let mut events: Vec<GiveawayEvent> = Vec::new();
    if !ctx.participant_account.attested_uploaded {
        ctx.participant_account.mark_attested(now);
        ctx.giveaway.add_attestation()?;
        events.push(
            GiveawayEvent::AttestationSubmitted {
                giveaway_id: ctx.giveaway.id,
                giveaway: pubkey_to_string(&ctx.giveaway_key),
                participant: pubkey_to_string(&ctx.participant),
                participant_account: pubkey_to_string(&ctx.participant_account_key),
                timestamp: now,
            },
        );
    }
    ctx.participant_account.include_verified_reveal(reveal_digest, now);
    ctx.giveaway.add_uploaded_reveals(1, aggregate_hash)?;
    events.push(
        GiveawayEvent::RevealsUploaded {
            giveaway_id: ctx.giveaway.id,
            giveaway: pubkey_to_string(&ctx.giveaway_key),
            authority: pubkey_to_string(&ctx.participant),
            batch_size: 1,
            total_reveals_uploaded: ctx.giveaway.provider_uploaded_count,
            total_attested: ctx.giveaway.attested_count,
            aggregate_hash: hex_encode(aggregate_hash.as_slice()),
            uploads_complete: ctx.giveaway.uploads_complete,
            timestamp: now,
        },
    );
    assert(events_view(events@) =~= events@.map_values(|e: GiveawayEvent| e@));
    Ok(events)
}

/// A direct reveal is accepted only during the upload window, from the
/// entry's own wallet, for an entry of this giveaway that is neither
/// disqualified nor already included, with lucky words of at most 32 bytes
/// and a salt of at most 16 whose `lucky_words || 0x1f || salt` hashes to
/// the commitment.
pub proof fn lemma_direct_reveal_needs_open_window_and_commitment(
    ctx: AttestReveal,
    lucky_words: Seq<char>,
    salt: Seq<u8>,
    now: i64,
)
    ensures
        spec_attest_reveal_error(ctx, lucky_words, salt, now) is None ==> {
            &&& !ctx.giveaway.settled
            &&& ctx.giveaway.upload_start_unix <= now
            &&& now < ctx.giveaway.upload_deadline_unix
            &&& ctx.participant_account.giveaway@ == ctx.giveaway_key@
            &&& ctx.participant_account.wallet@ == ctx.participant@
            &&& !ctx.participant_account.disqualified
            &&& !ctx.participant_account.reveal_included
            &&& encode_utf8(lucky_words).len() <= 32
            &&& salt.len() <= 16
            &&& spec_sha256(encode_utf8(lucky_words) + seq![0x1fu8] + salt)
                == ctx.participant_account.commitment_hash@
        },
{
}

} // verus!
