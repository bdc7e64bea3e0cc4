//! Permissionless, resumable winner finalization over a fixed-size ledger:
//! an aggregation pass over the eligible pool, radix passes toward the top-K
//! threshold key, a resolution pass that picks the key out, an emission pass
//! that reports every winner, and the settlement root written at the end.
use vstd::prelude::*;
use crate::address::{pubkey_to_string, spec_pubkey_base58};
use crate::bytes::{agree_upto, bytes_lex_le, is_all_zero, lex_le, pubkey_eq, zero_bytes, Pubkey};
use crate::constants::{
    spec_giveaway_finalization_seed_domain_v3, spec_giveaway_pool_domain_v3,
    DEFAULT_REMEDIATION_WINDOW_SECS, GIVEAWAY_RULE_VERSION_V4, MIN_WINNER_PAYOUT_LAMPORTS,
};
use crate::error::GiveawayError;
use crate::events::{events_view, strings_view, GiveawayEvent, GiveawayEventView};
use crate::hashing::{hex_encode, spec_hex_lower, spec_sha256};
use crate::state::config::Config;
use crate::state::finalization_ledger::{
    empty_histogram, hist_sum, is_rank_bucket, lemma_rank_bucket_unique, radix_pass_step, zeros32,
    zeros64, FinalizationLedger, FINALIZATION_PROTOCOL_VERSION,
    PHASE_AGGREGATING, PHASE_COMPLETED, PHASE_EMITTING, PHASE_RADIX, PHASE_RESOLVING,
};
use crate::state::giveaway::Giveaway;
use crate::state::participant::{same_outside, Participant};
use crate::state::winners_ledger::WinnersLedger;
use crate::utils::account::ParticipantAccountInfo;
use crate::state::giveaway::{
    spec_missing_attested_reveals, spec_ready_for_settlement,
    spec_winners_pool,
};
use crate::utils::crypto::{
    compute_candidate_key, compute_finalization_seed_v3, compute_participant_commitment_leaf,
    compute_threshold_commitment, spec_bound_seed, spec_candidate_key,
    spec_participant_commitment_leaf, spec_threshold_commitment,
};
use crate::utils::pda::{assert_pda_owned, participant_seeds, spec_is_pda, spec_participant_seeds};

verus! {

/// The ledger's prefix fits its key: empty while aggregating, with room for
/// one more byte while a radix pass is open.
pub open spec fn ledger_wf(l: FinalizationLedger) -> bool {
    &&& l.prefix_len <= 64
    &&& l.phase == PHASE_AGGREGATING ==> l.prefix_len == 0
    &&& l.phase == PHASE_RADIX ==> l.prefix_len < 64
}

/// Whether a stored ledger is well formed, so that a chunk may run on it.
pub fn ledger_is_well_formed(l: &FinalizationLedger) -> (wf: bool)
    ensures
        wf == ledger_wf(*l),
{
    l.prefix_len <= 64 && (l.phase != PHASE_AGGREGATING || l.prefix_len == 0) && (l.phase
        != PHASE_RADIX || l.prefix_len < 64)
}

/// The entry counts toward the draw.
pub open spec fn spec_eligible(q: Participant) -> bool {
    !q.disqualified && q.reveal_included
}

/// The entry's candidate key under the ledger's seed.
pub open spec fn entry_key(root: FinalizationLedger, q: Participant) -> Seq<u8> {
    spec_candidate_key(root.seed@, q.wallet@)
}

/// The selection-pass number entries are marked with in the current phase:
/// radix passes count from 1, resolution passes from 1000, and the emission
/// pass is 2000.
pub open spec fn spec_selection_pass_number(root: FinalizationLedger) -> u16 {
    if root.phase == PHASE_RADIX {
        (root.prefix_len + 1) as u16
    } else if root.phase == PHASE_RESOLVING {
        (1000 + root.prefix_len) as u16
    } else {
        2000u16
    }
}

/// `q1` is `q` marked by the aggregation pass of `version`, updated at `t`.
pub open spec fn aggregation_marked(q: Participant, version: u32, t: i64, q1: Participant) -> bool {
    &&& q1.spec_finalization_version() == version
    &&& same_outside(q1.reserved@, q.reserved@, 0, 4)
    &&& q1 == Participant { last_updated_unix: t, reserved: q1.reserved, ..q }
}

/// `q1` is `q` marked by selection pass `pass` of `version`, updated at `t`.
pub open spec fn selection_marked(
    q: Participant,
    version: u32,
    pass: u16,
    t: i64,
    q1: Participant,
) -> bool {
    &&& q1.spec_selection_version() == version
    &&& q1.spec_selection_pass() == pass
    &&& same_outside(q1.reserved@, q.reserved@, 4, 10)
    &&& q1 == Participant { last_updated_unix: t, reserved: q1.reserved, ..q }
}

/// The error, if any, of the current phase's work on a loaded entry.
pub open spec fn spec_phase_error(root: FinalizationLedger, q: Participant) -> Option<GiveawayError> {
    let key = entry_key(root, q);
    if root.phase == PHASE_AGGREGATING {
        if q.spec_finalization_version() == root.recompute_version {
            Some(GiveawayError::InvalidAccount)
        } else if spec_eligible(q) && root.eligible_count == u64::MAX {
            Some(GiveawayError::MathOverflow)
        } else {
            None
        }
    } else if root.phase == PHASE_RADIX || root.phase == PHASE_RESOLVING || root.phase
        == PHASE_EMITTING {
        if q.spec_selection_version() == root.recompute_version && q.spec_selection_pass()
            == spec_selection_pass_number(root) {
            Some(GiveawayError::InvalidAccount)
        } else if !spec_eligible(q) {
            None
        } else if root.phase == PHASE_RADIX {
            if root.prefix_len < 64 && agree_upto(key, root.prefix@, root.prefix_len as int)
                && root.histogram@[key[root.prefix_len as int] as int] == u64::MAX {
                Some(GiveawayError::MathOverflow)
            } else {
                None
            }
        } else if root.phase == PHASE_RESOLVING {
            if agree_upto(key, root.prefix@, root.prefix_len as int) && root.threshold_found != 0 {
                Some(GiveawayError::InvalidAccount)
            } else {
                None
            }
        } else if lex_le(key, root.threshold_key@) && root.spec_emitted_count() == u32::MAX {
            Some(GiveawayError::MathOverflow)
        } else {
            None
        }
    } else if root.phase == PHASE_COMPLETED {
        Some(GiveawayError::WinnersLocked)
    } else {
        Some(GiveawayError::InvalidAccount)
    }
}

/// What the current phase's work does to the ledger (`root2`) and the entry
/// (`q1`, updated at `t`), and the winner it selects, if any.
pub open spec fn spec_phase_result(
    root: FinalizationLedger,
    q: Participant,
    t: i64,
    root2: FinalizationLedger,
    q1: Participant,
    selected: Option<([u8; 64], u32)>,
) -> bool {
    let key = entry_key(root, q);
    if root.phase == PHASE_AGGREGATING {
        &&& aggregation_marked(q, root.recompute_version, t, q1)
        &&& selected is None
        &&& if spec_eligible(q) {
            &&& root2.participants_commitment@ == spec_sha256(
                spec_giveaway_pool_domain_v3() + root.participants_commitment@
                    + spec_participant_commitment_leaf(
                    q.spec_participant_index(),
                    q.wallet@,
                    q.spec_reveal_digest(),
                ),
            )
            &&& root2 == FinalizationLedger {
                eligible_count: (root.eligible_count + 1) as u64,
                participants_commitment: root2.participants_commitment,
                ..root
            }
        } else {
            root2 == root
        }
    } else {
        &&& selection_marked(q, root.recompute_version, spec_selection_pass_number(root), t, q1)
        &&& if !spec_eligible(q) {
            root2 == root && selected is None
        } else if root.phase == PHASE_RADIX {
            &&& root2.histogram@ == crate::state::finalization_ledger::spec_radix_histogram_after(
                root.histogram@,
                root.prefix@,
                root.prefix_len,
                key,
            )
            &&& root2 == FinalizationLedger { histogram: root2.histogram, ..root }
            &&& selected is None
        } else if root.phase == PHASE_RESOLVING {
            &&& selected is None
            &&& if agree_upto(key, root.prefix@, root.prefix_len as int) {
                root2.threshold_key@ == key && root2 == FinalizationLedger {
                    threshold_key: root2.threshold_key,
                    threshold_found: 1,
                    ..root
                }
            } else {
                root2 == root
            }
        } else if lex_le(key, root.threshold_key@) {
            &&& root2.spec_emitted_count() == root.spec_emitted_count() + 1
            &&& root2.reserved@.subrange(4, 64) == root.reserved@.subrange(4, 64)
            &&& root2 == FinalizationLedger { reserved: root2.reserved, ..root }
            &&& selected matches Some(s) && s.0@ == key && s.1 == root.spec_emitted_count()
        } else {
            root2 == root && selected is None
        }
    }
}

/// The winner indices reported by a run of selections, in order.
pub open spec fn spec_emission_indices(selected: Seq<Option<([u8; 64], u32)>>) -> Seq<u32>
    decreases selected.len(),
{
    if selected.len() == 0 {
        Seq::empty()
    } else {
        let before = spec_emission_indices(selected.drop_last());
        match selected.last() {
            Some(s) => before.push(s.1),
            None => before,
        }
    }
}

/// Emission numbers winners consecutively: over any run of emission steps,
/// across chunks and calls, the reported winner indices are the emitted
/// count at the start, then one more each time, and the count at the end
/// has grown by the number of winners reported. The emission pass starts
/// at count 0 and closes only at the target count, so a completed
/// finalization reports the indices `0..target` once each.
pub proof fn lemma_emission_indices_consecutive(
    roots: Seq<FinalizationLedger>,
    entries: Seq<Participant>,
    times: Seq<i64>,
    marked: Seq<Participant>,
    selected: Seq<Option<([u8; 64], u32)>>,
)
    requires
        roots.len() == selected.len() + 1,
        entries.len() == selected.len(),
        times.len() == selected.len(),
        marked.len() == selected.len(),
        forall|k: int|
            0 <= k < selected.len() ==> (#[trigger] roots[k]).phase == PHASE_EMITTING
                && spec_phase_result(
                roots[k],
                entries[k],
                times[k],
                roots[k + 1],
                marked[k],
                selected[k],
            ),
    ensures
        roots.last().spec_emitted_count() == roots[0].spec_emitted_count() + spec_emission_indices(
            selected,
        ).len(),
        forall|j: int|
            0 <= j < spec_emission_indices(selected).len() ==> #[trigger] spec_emission_indices(
                selected,
            )[j] == roots[0].spec_emitted_count() + j,
    decreases selected.len(),
{
    let n = selected.len() as int;
    if n > 0 {
        let prefix_roots = roots.subrange(0, n);
        lemma_emission_indices_consecutive(
            prefix_roots,
            entries.drop_last(),
            times.drop_last(),
            marked.drop_last(),
            selected.drop_last(),
        );
        assert(roots[n - 1].phase == PHASE_EMITTING);
        assert(spec_phase_result(
            roots[n - 1],
            entries[n - 1],
            times[n - 1],
            roots[n],
            marked[n - 1],
            selected[n - 1],
        ));
        assert(prefix_roots.last() == roots[n - 1]);
        assert(prefix_roots[0] == roots[0]);
    }
}

/// Every pass takes each entry at most once: after a phase step marks an
/// entry, the same pass (same phase, version and prefix length) refuses it.
pub proof fn lemma_pass_takes_entry_once(
    root: FinalizationLedger,
    q: Participant,
    t: i64,
    root2: FinalizationLedger,
    q1: Participant,
    selected: Option<([u8; 64], u32)>,
    later: FinalizationLedger,
)
    requires
        spec_phase_error(root, q) is None,
        spec_phase_result(root, q, t, root2, q1, selected),
        later.phase == root.phase,
        later.recompute_version == root.recompute_version,
        later.prefix_len == root.prefix_len,
    ensures
        spec_phase_error(later, q1) == Some(GiveawayError::InvalidAccount),
{
}

fn process_aggregation(root: &mut FinalizationLedger, participant: &mut Participant) -> (result:
    Result<(), GiveawayError>)
    requires
        old(root).phase == PHASE_AGGREGATING,
    ensures
        result is Err ==> *final(root) == *old(root) && *final(participant) == *old(participant),
        spec_phase_error(*old(root), *old(participant)) matches Some(e) ==> result == Err::<
            (),
            _,
        >(e),
        spec_phase_error(*old(root), *old(participant)) is None ==> result is Ok
            && spec_phase_result(
            *old(root),
            *old(participant),
            old(participant).last_updated_unix,
            *final(root),
            *final(participant),
            None,
        ),
{
    if participant.finalization_version() == root.recompute_version {
        return Err(GiveawayError::InvalidAccount);
    }
    if participant.is_eligible() {
        let leaf = compute_participant_commitment_leaf(
            participant.participant_index(),
            &participant.wallet,
            participant.reveal_digest(),
        );
        root.record_eligible(leaf)?;
    }
    let t = participant.last_updated_unix;
    participant.mark_finalized_for_version(root.recompute_version, t);
    Ok(())
}

fn process_radix(root: &mut FinalizationLedger, participant: &mut Participant) -> (result: Result<
    (),
    GiveawayError,
>)
    requires
        old(root).phase == PHASE_RADIX,
        old(root).prefix_len < 64,
    ensures
        spec_phase_error(*old(root), *old(participant)) matches Some(e) ==> result == Err::<
            (),
            _,
        >(e),
        spec_phase_error(*old(root), *old(participant)) is None ==> result is Ok
            && spec_phase_result(
            *old(root),
            *old(participant),
            old(participant).last_updated_unix,
            *final(root),
            *final(participant),
            None,
        ),
{
    let pass = root.prefix_len as u16 + 1;
    if participant.processed_in_selection_pass(root.recompute_version, pass) {
        return Err(GiveawayError::InvalidAccount);
    }
    let t = participant.last_updated_unix;
    participant.mark_selection_pass(root.recompute_version, pass, t);
    if participant.is_eligible() {
        let key = compute_candidate_key(&root.seed, &participant.wallet);
        root.record_radix_key(&key)?;
    }
    Ok(())
}

fn process_resolution(root: &mut FinalizationLedger, participant: &mut Participant) -> (result:
    Result<(), GiveawayError>)
    requires
        old(root).phase == PHASE_RESOLVING,
        old(root).prefix_len <= 64,
    ensures
        spec_phase_error(*old(root), *old(participant)) matches Some(e) ==> result == Err::<
            (),
            _,
        >(e),
        spec_phase_error(*old(root), *old(participant)) is None ==> result is Ok
            && spec_phase_result(
            *old(root),
            *old(participant),
            old(participant).last_updated_unix,
            *final(root),
            *final(participant),
            None,
        ),
{
    let pass = 1000u16 + root.prefix_len as u16;
    if participant.processed_in_selection_pass(root.recompute_version, pass) {
        return Err(GiveawayError::InvalidAccount);
    }
    let t = participant.last_updated_unix;
    participant.mark_selection_pass(root.recompute_version, pass, t);
    if participant.is_eligible() {
        let key = compute_candidate_key(&root.seed, &participant.wallet);
        if root.matches_prefix(&key) {
            root.resolve_threshold(key)?;
        }
    }
    Ok(())
}

fn process_emitting(root: &mut FinalizationLedger, participant: &mut Participant) -> (result:
    Result<Option<([u8; 64], u32)>, GiveawayError>)
    requires
        old(root).phase == PHASE_EMITTING,
    ensures
        spec_phase_error(*old(root), *old(participant)) matches Some(e) ==> result == Err::<
            Option<([u8; 64], u32)>,
            _,
        >(e),
        spec_phase_error(*old(root), *old(participant)) is None ==> (result matches Ok(selected)
            && spec_phase_result(
            *old(root),
            *old(participant),
            old(participant).last_updated_unix,
            *final(root),
            *final(participant),
            selected,
        )),
{
    let pass = 2000u16;
    if participant.processed_in_selection_pass(root.recompute_version, pass) {
        return Err(GiveawayError::InvalidAccount);
    }
    let t = participant.last_updated_unix;
    participant.mark_selection_pass(root.recompute_version, pass, t);
    if !participant.is_eligible() {
        return Ok(None);
    }
    let key = compute_candidate_key(&root.seed, &participant.wallet);
    if !bytes_lex_le(key.as_slice(), root.threshold_key.as_slice()) {
        return Ok(None);
    }
    let emission_index = root.record_emitted()?;
    Ok(Some((key, emission_index)))
}

/// The error, if any, of loading account `info` as an entry of `giveaway`:
/// it must be writable, program-owned, decodable, of this giveaway and at its
/// canonical PDA.
pub open spec fn spec_load_error(
    program_id: Seq<u8>,
    giveaway: Seq<u8>,
    info: ParticipantAccountInfo,
) -> Option<GiveawayError> {
    if !info.account.is_writable {
        Some(GiveawayError::AccountNotWritable)
    } else if info.account.owner@ != program_id {
        Some(GiveawayError::InvalidProgram)
    } else if info.participant is None {
        Some(GiveawayError::AccountNotInitialized)
    } else if info.participant->0.giveaway@ != giveaway {
        Some(GiveawayError::InvalidAccount)
    } else if !spec_is_pda(
        info.account.key@,
        spec_participant_seeds(giveaway, info.participant->0.wallet@),
        program_id,
    ) {
        Some(GiveawayError::InvalidAccount)
    } else {
        None
    }
}

fn load_participant(program_id: &Pubkey, info: &ParticipantAccountInfo, giveaway: &Pubkey) -> (result:
    Result<Participant, GiveawayError>)
    ensures
        spec_load_error(program_id@, giveaway@, *info) matches Some(e) ==> result == Err::<
            Participant,
            _,
        >(e),
        spec_load_error(program_id@, giveaway@, *info) is None ==> result == Ok::<
            Participant,
            GiveawayError,
        >(info.participant->0),
{
    if !info.account.is_writable {
        return Err(GiveawayError::AccountNotWritable);
    }
    if !pubkey_eq(&info.account.owner, program_id) {
        return Err(GiveawayError::InvalidProgram);
    }
    let participant = match &info.participant {
        Some(p) => p.duplicate(),
        None => {
            return Err(GiveawayError::AccountNotInitialized);
        },
    };
    if !pubkey_eq(&participant.giveaway, giveaway) {
        return Err(GiveawayError::InvalidAccount);
    }
    let seeds = participant_seeds(giveaway, &participant.wallet);
    assert_pda_owned(program_id, &info.account, &seeds)?;
    Ok(participant)
}

/// The error, if any, of one finalization step over account `info`: loading,
/// the participant index against the ledger's processed count, the phase's
/// work, and the processed-count increment.
pub open spec fn spec_step_error(
    program_id: Seq<u8>,
    giveaway: Seq<u8>,
    root: FinalizationLedger,
    info: ParticipantAccountInfo,
) -> Option<GiveawayError> {
    if spec_load_error(program_id, giveaway, info) is Some {
        spec_load_error(program_id, giveaway, info)
    } else if info.participant->0.spec_participant_index() != root.processed_count {
        Some(GiveawayError::InvalidInstruction)
    } else if spec_phase_error(root, info.participant->0) is Some {
        spec_phase_error(root, info.participant->0)
    } else if root.processed_count == u64::MAX {
        Some(GiveawayError::MathOverflow)
    } else {
        None
    }
}

/// One successful finalization step over account `info` at time `now`:
/// the ledger moves from `root` to `root1`, the account's entry becomes the
/// one in `info1`, and `selected` is the winner it yields, if any.
pub open spec fn spec_step(
    program_id: Seq<u8>,
    giveaway: Seq<u8>,
    root: FinalizationLedger,
    info: ParticipantAccountInfo,
    now: i64,
    root1: FinalizationLedger,
    info1: ParticipantAccountInfo,
    selected: Option<([u8; 64], u32)>,
) -> bool {
    &&& spec_step_error(program_id, giveaway, root, info) is None
    &&& info1.account == info.account
    &&& info1.participant is Some
    &&& root1.processed_count == root.processed_count + 1
    &&& spec_phase_result(
        root,
        info.participant->0,
        now,
        FinalizationLedger { processed_count: root.processed_count, ..root1 },
        info1.participant->0,
        selected,
    )
}

fn apply_phase(root: &mut FinalizationLedger, participant: &mut Participant) -> (result: Result<
    Option<([u8; 64], u32)>,
    GiveawayError,
>)
    requires
        ledger_wf(*old(root)),
    ensures
        spec_phase_error(*old(root), *old(participant)) matches Some(e) ==> result == Err::<
            Option<([u8; 64], u32)>,
            _,
        >(e),
        spec_phase_error(*old(root), *old(participant)) is None ==> (result matches Ok(selected)
            && spec_phase_result(
            *old(root),
            *old(participant),
            old(participant).last_updated_unix,
            *final(root),
            *final(participant),
            selected,
        )),
{
    if root.phase == PHASE_AGGREGATING {
        process_aggregation(root, participant)?;
        Ok(None)
    } else if root.phase == PHASE_RADIX {
        process_radix(root, participant)?;
        Ok(None)
    } else if root.phase == PHASE_RESOLVING {
        process_resolution(root, participant)?;
        Ok(None)
    } else if root.phase == PHASE_EMITTING {
        process_emitting(root, participant)
    } else if root.phase == PHASE_COMPLETED {
        Err(GiveawayError::WinnersLocked)
    } else {
        Err(GiveawayError::InvalidAccount)
    }
}

fn process_participant(
    program_id: &Pubkey,
    giveaway: &Pubkey,
    root: &mut FinalizationLedger,
    info: &ParticipantAccountInfo,
    now: i64,
) -> (result: Result<(ParticipantAccountInfo, Option<([u8; 64], u32)>), GiveawayError>)
    requires
        ledger_wf(*old(root)),
    ensures
        spec_step_error(program_id@, giveaway@, *old(root), *info) matches Some(e) ==> result
            == Err::<(ParticipantAccountInfo, Option<([u8; 64], u32)>), _>(e),
        spec_step_error(program_id@, giveaway@, *old(root), *info) is None ==> (result matches Ok(
            r,
        ) && spec_step(program_id@, giveaway@, *old(root), *info, now, *final(root), r.0, r.1)
            && ledger_wf(*final(root)) && final(root).recompute_version == old(root).recompute_version
            && final(root).completed == old(root).completed),
{
    let mut participant = load_participant(program_id, info, giveaway)?;
    if participant.participant_index() != root.processed_count {
        return Err(GiveawayError::InvalidInstruction);
    }
    let ghost root0 = *root;
    let selected = apply_phase(root, &mut participant)?;
    let ghost root2 = *root;
    participant.last_updated_unix = now;
    root.record_processed()?;
    assert(root2 == FinalizationLedger { processed_count: root0.processed_count, ..*root });
    Ok((ParticipantAccountInfo { account: info.account, participant: Some(participant) }, selected))
}

/// The first `n` accounts of `infos` were processed by successful steps, in
/// order: step `i` took the ledger from `roots[i]` to `roots[i + 1]`,
/// rewrote account `i` as `outs[i]` and selected `selected[i]`.
pub open spec fn spec_batch(
    program_id: Seq<u8>,
    giveaway: Seq<u8>,
    infos: Seq<ParticipantAccountInfo>,
    n: int,
    now: i64,
    roots: Seq<FinalizationLedger>,
    outs: Seq<ParticipantAccountInfo>,
    selected: Seq<Option<([u8; 64], u32)>>,
) -> bool {
    &&& 0 <= n <= infos.len()
    &&& roots.len() == n + 1
    &&& outs.len() == n
    &&& selected.len() == n
    &&& forall|i: int|
        0 <= i < n ==> #[trigger] spec_step(
            program_id,
            giveaway,
            roots[i],
            infos[i],
            now,
            roots[i + 1],
            outs[i],
            selected[i],
        )
}

/// The run over `infos` from `root0` stops with error `e`: the steps before
/// account `k` succeed and the step at `k` fails, or the batch counter
/// overflows after it.
pub open spec fn spec_batch_fails(
    program_id: Seq<u8>,
    giveaway: Seq<u8>,
    root0: FinalizationLedger,
    infos: Seq<ParticipantAccountInfo>,
    now: i64,
    e: GiveawayError,
) -> bool {
    exists|
        k: int,
        roots: Seq<FinalizationLedger>,
        outs: Seq<ParticipantAccountInfo>,
        selected: Seq<Option<([u8; 64], u32)>>,
    |
        #[trigger] spec_batch(program_id, giveaway, infos, k, now, roots, outs, selected) && k
            < infos.len() && roots[0] == root0 && (spec_step_error(
            program_id,
            giveaway,
            roots[k],
            infos[k],
        ) == Some(e) || (spec_step_error(program_id, giveaway, roots[k], infos[k]) is None && k
            == u32::MAX && e == GiveawayError::MathOverflow))
}

/// A complete run over `infos` from `root0` to `root_n`, with the rewritten
/// accounts `outs` and the reported `events`.
pub open spec fn spec_batch_outcome(
    program_id: Seq<u8>,
    giveaway: Seq<u8>,
    giveaway_id: u64,
    root0: FinalizationLedger,
    infos: Seq<ParticipantAccountInfo>,
    now: i64,
    root_n: FinalizationLedger,
    outs: Seq<ParticipantAccountInfo>,
    events: Seq<GiveawayEventView>,
) -> bool {
    exists|roots: Seq<FinalizationLedger>, selected: Seq<Option<([u8; 64], u32)>>|
        #[trigger] spec_batch(
            program_id,
            giveaway,
            infos,
            infos.len() as int,
            now,
            roots,
            outs,
            selected,
        ) && roots[0] == root0 && roots.last() == root_n && events == spec_winner_events(
            giveaway_id,
            giveaway,
            root0.recompute_version,
            now,
            outs,
            selected,
        )
}

/// The winner-selected events of a run, in account order.
pub open spec fn spec_winner_events(
    giveaway_id: u64,
    giveaway: Seq<u8>,
    recompute_version: u32,
    now: i64,
    outs: Seq<ParticipantAccountInfo>,
    selected: Seq<Option<([u8; 64], u32)>>,
) -> Seq<GiveawayEventView>
    decreases outs.len(),
{
    if outs.len() == 0 {
        Seq::empty()
    } else {
        let rest = spec_winner_events(
            giveaway_id,
            giveaway,
            recompute_version,
            now,
            outs.drop_last(),
            selected.drop_last(),
        );
        match selected.last() {
            Some(s) => rest.push(
                GiveawayEventView::WinnerSelected {
                    giveaway_id,
                    giveaway: spec_pubkey_base58(giveaway),
                    participant: spec_pubkey_base58(outs.last().participant->0.wallet@),
                    participant_account: spec_pubkey_base58(outs.last().account.key@),
                    candidate_key: spec_hex_lower(s.0@),
                    recompute_version,
                    emission_index: s.1,
                    timestamp: now,
                },
            ),
            None => rest,
        }
    }
}

proof fn lemma_batch_extend(
    program_id: Seq<u8>,
    giveaway: Seq<u8>,
    infos: Seq<ParticipantAccountInfo>,
    k: int,
    now: i64,
    roots: Seq<FinalizationLedger>,
    root1: FinalizationLedger,
    outs: Seq<ParticipantAccountInfo>,
    out: ParticipantAccountInfo,
    selected: Seq<Option<([u8; 64], u32)>>,
    sel: Option<([u8; 64], u32)>,
)
    requires
        k < infos.len(),
        spec_batch(program_id, giveaway, infos, k, now, roots, outs, selected),
        spec_step(program_id, giveaway, roots[k], infos[k], now, root1, out, sel),
    ensures
        spec_batch(
            program_id,
            giveaway,
            infos,
            k + 1,
            now,
            roots.push(root1),
            outs.push(out),
            selected.push(sel),
        ),
{
    let roots1 = roots.push(root1);
    assert forall|i: int| 0 <= i < k + 1 implies #[trigger] spec_step(
        program_id,
        giveaway,
        roots1[i],
        infos[i],
        now,
        roots1[i + 1],
        outs.push(out)[i],
        selected.push(sel)[i],
    ) by {
        if i < k {
            assert(roots1[i] == roots[i]);
            assert(roots1[i + 1] == roots[i + 1]);
            assert(spec_step(
                program_id,
                giveaway,
                roots[i],
                infos[i],
                now,
                roots[i + 1],
                outs[i],
                selected[i],
            ));
        }
    }
}

proof fn lemma_winner_events_push(
    giveaway_id: u64,
    giveaway: Seq<u8>,
    recompute_version: u32,
    now: i64,
    outs: Seq<ParticipantAccountInfo>,
    selected: Seq<Option<([u8; 64], u32)>>,
    out: ParticipantAccountInfo,
    sel: Option<([u8; 64], u32)>,
)
    ensures
        spec_winner_events(
            giveaway_id,
            giveaway,
            recompute_version,
            now,
            outs.push(out),
            selected.push(sel),
        ) == match sel {
            Some(s) => spec_winner_events(
                giveaway_id,
                giveaway,
                recompute_version,
                now,
                outs,
                selected,
            ).push(
                GiveawayEventView::WinnerSelected {
                    giveaway_id,
                    giveaway: spec_pubkey_base58(giveaway),
                    participant: spec_pubkey_base58(out.participant->0.wallet@),
                    participant_account: spec_pubkey_base58(out.account.key@),
                    candidate_key: spec_hex_lower(s.0@),
                    recompute_version,
                    emission_index: s.1,
                    timestamp: now,
                },
            ),
            None => spec_winner_events(
                giveaway_id,
                giveaway,
                recompute_version,
                now,
                outs,
                selected,
            ),
        },
{
    assert(outs.push(out).drop_last() =~= outs);
    assert(selected.push(sel).drop_last() =~= selected);
}

fn process_batch(
    program_id: &Pubkey,
    giveaway_id: u64,
    giveaway: &Pubkey,
    root: &mut FinalizationLedger,
    infos: &Vec<ParticipantAccountInfo>,
    now: i64,
) -> (result: Result<(Vec<ParticipantAccountInfo>, Vec<GiveawayEvent>), GiveawayError>)
    requires
        ledger_wf(*old(root)),
    ensures
        result matches Err(e) ==> spec_batch_fails(
            program_id@,
            giveaway@,
            *old(root),
            infos@,
            now,
            e,
        ),
        result matches Ok(r) ==> {
            &&& infos@.len() <= u32::MAX
            &&& ledger_wf(*final(root))
            &&& final(root).recompute_version == old(root).recompute_version
            &&& final(root).completed == old(root).completed
            &&& spec_batch_outcome(
                program_id@,
                giveaway@,
                giveaway_id,
                *old(root),
                infos@,
                now,
                *final(root),
                r.0@,
                events_view(r.1@),
            )
        },
{
    let ghost root0 = *root;
    let mut outs: Vec<ParticipantAccountInfo> = Vec::new();
    let mut events: Vec<GiveawayEvent> = Vec::new();
    let ghost mut selected: Seq<Option<([u8; 64], u32)>> = Seq::empty();
    let ghost mut roots: Seq<FinalizationLedger> = seq![root0];
    let mut batch_size: u32 = 0;
    let mut k: usize = 0;
    assert(events_view(events@) =~= Seq::<GiveawayEventView>::empty());
    while k < infos.len()
        invariant
            k <= infos@.len(),
            root0 == *old(root),
            ledger_wf(*root),
            root.recompute_version == root0.recompute_version,
            root.completed == root0.completed,
            batch_size == k,
            spec_batch(program_id@, giveaway@, infos@, k as int, now, roots, outs@, selected),
            roots[0] == root0,
            roots[k as int] == *root,
            events_view(events@) == spec_winner_events(
                giveaway_id,
                giveaway@,
                root0.recompute_version,
                now,
                outs@,
                selected,
            ),
        decreases infos@.len() - k,
    {
        let ghost old_outs = outs@;
        let ghost old_selected = selected;
        let (out, sel) = match process_participant(program_id, giveaway, root, &infos[k], now) {
            Ok(r) => r,
            Err(e) => {
                assert(spec_batch(
                    program_id@,
                    giveaway@,
                    infos@,
                    k as int,
                    now,
                    roots,
                    old_outs,
                    old_selected,
                ));
                return Err(e);
            },
        };
        let wallet = match &out.participant {
            Some(p) => p.wallet,
            None => [0u8; 32],
        };
        match sel {
            Some(s) => {
                let event = GiveawayEvent::WinnerSelected {
                    giveaway_id,
                    giveaway: pubkey_to_string(giveaway),
                    participant: pubkey_to_string(&wallet),
                    participant_account: pubkey_to_string(&out.account.key),
                    candidate_key: hex_encode(s.0.as_slice()),
                    recompute_version: root.recompute_version,
                    emission_index: s.1,
                    timestamp: now,
                };
                events.push(event);
            },
            None => {},
        }
        let ghost old_roots = roots;
        proof {
            lemma_batch_extend(
                program_id@,
                giveaway@,
                infos@,
                k as int,
                now,
                old_roots,
                *root,
                old_outs,
                out,
                old_selected,
                sel,
            );
            lemma_winner_events_push(
                giveaway_id,
                giveaway@,
                root0.recompute_version,
                now,
                old_outs,
                old_selected,
                out,
                sel,
            );
            selected = old_selected.push(sel);
            roots = old_roots.push(*root);
            assert(events_view(events@) =~= spec_winner_events(
                giveaway_id,
                giveaway@,
                root0.recompute_version,
                now,
                old_outs.push(out),
                selected,
            ));
        }
        outs.push(out);
        batch_size = match batch_size.checked_add(1) {
            Some(next) => next,
            None => {
                assert(spec_batch(
                    program_id@,
                    giveaway@,
                    infos@,
                    k as int,
                    now,
                    old_roots,
                    old_outs,
                    old_selected,
                ));
                return Err(GiveawayError::MathOverflow);
            },
        };
        k = k + 1;
    }
    assert(spec_batch(
        program_id@,
        giveaway@,
        infos@,
        infos@.len() as int,
        now,
        roots,
        outs@,
        selected,
    ));
    assert(roots.last() == *root);
    assert(spec_batch_outcome(
        program_id@,
        giveaway@,
        giveaway_id,
        root0,
        infos@,
        now,
        *root,
        outs@,
        events_view(events@),
    ));
    Ok((outs, events))
}

/// The number of winners a finished aggregation pass targets: the requested
/// count, capped by the eligible pool.
pub open spec fn spec_target_winners(number_of_winners: u32, eligible_count: u64) -> u32 {
    if (number_of_winners as u64) < eligible_count {
        number_of_winners
    } else {
        eligible_count as u32
    }
}

/// The error, if any, of closing a pass once every entry was processed.
pub open spec fn spec_close_error(root: FinalizationLedger) -> Option<GiveawayError> {
    let h = root.histogram@;
    let r = root.remaining_rank as int;
    if root.phase == PHASE_RADIX {
        if r == 0 || hist_sum(h, 256) < r {
            Some(GiveawayError::InvalidInstruction)
        } else if exists|b: int| #[trigger] is_rank_bucket(h, r, b) && hist_sum(h, b + 1) > u64::MAX {
            Some(GiveawayError::MathOverflow)
        } else {
            None
        }
    } else if root.phase == PHASE_RESOLVING {
        if root.threshold_found == 0 {
            Some(GiveawayError::NoEligibleParticipants)
        } else {
            None
        }
    } else if root.phase == PHASE_EMITTING {
        if root.spec_emitted_count() != root.target_winners {
            Some(GiveawayError::InvalidAccount)
        } else {
            None
        }
    } else {
        None
    }
}

/// Closing a pass moves the ledger from `root` to `root1`: aggregation
/// starts the radix passes (or completes at once with no winner to pick), a
/// radix pass fixes the next prefix byte, resolution starts the emission
/// pass, and emission completes the run (`completed`).
pub open spec fn spec_close(
    root: FinalizationLedger,
    number_of_winners: u32,
    giveaway_id: u64,
    aggregate_hash: Seq<u8>,
    now: i64,
    root1: FinalizationLedger,
    completed: bool,
) -> bool {
    let target = spec_target_winners(number_of_winners, root.eligible_count);
    if root.phase == PHASE_AGGREGATING {
        if target == 0 {
            completed && root1 == FinalizationLedger {
                target_winners: 0,
                phase: PHASE_COMPLETED,
                completed: 1,
                completed_at_unix: now,
                ..root
            }
        } else {
            &&& !completed
            &&& root1.seed@ == spec_bound_seed(
                spec_giveaway_finalization_seed_domain_v3(),
                giveaway_id,
                aggregate_hash,
                root.eligible_count,
                root.participants_commitment@,
            )
            &&& root1.histogram@ == empty_histogram()
            &&& root1 == FinalizationLedger {
                phase: PHASE_RADIX,
                seed: root1.seed,
                target_winners: target,
                remaining_rank: target as u64,
                processed_count: 0,
                histogram: root1.histogram,
                ..root
            }
        }
    } else if root.phase == PHASE_RADIX {
        !completed && exists|b: int| #[trigger]
            is_rank_bucket(root.histogram@, root.remaining_rank as int, b) && radix_pass_step(
                root,
                root1,
                b,
            )
    } else if root.phase == PHASE_RESOLVING {
        &&& !completed
        &&& root1.spec_emitted_count() == 0
        &&& root1.reserved@.subrange(4, 64) == root.reserved@.subrange(4, 64)
        &&& root1.histogram@ == empty_histogram()
        &&& root1 == FinalizationLedger {
            phase: PHASE_EMITTING,
            processed_count: 0,
            histogram: root1.histogram,
            reserved: root1.reserved,
            ..root
        }
    } else if root.phase == PHASE_EMITTING {
        completed && root1 == FinalizationLedger {
            phase: PHASE_COMPLETED,
            completed: 1,
            completed_at_unix: now,
            ..root
        }
    } else {
        !completed && root1 == root
    }
}

fn close_pass(
    root: &mut FinalizationLedger,
    number_of_winners: u32,
    giveaway_id: u64,
    aggregate_hash: [u8; 32],
    now: i64,
) -> (result: Result<bool, GiveawayError>)
    requires
        ledger_wf(*old(root)),
    ensures
        spec_close_error(*old(root)) matches Some(e) ==> result == Err::<bool, _>(e),
        spec_close_error(*old(root)) is None ==> (result matches Ok(completed) && spec_close(
            *old(root),
            number_of_winners,
            giveaway_id,
            aggregate_hash@,
            now,
            *final(root),
            completed,
        ) && ledger_wf(*final(root))),
{
    if root.phase == PHASE_AGGREGATING {
        let target: u32 = if (number_of_winners as u64) < root.eligible_count {
            number_of_winners
        } else {
            root.eligible_count as u32
        };
        if target == 0 {
            root.target_winners = 0;
            root.complete(now);
            Ok(true)
        } else {
            let seed = compute_finalization_seed_v3(
                giveaway_id,
                aggregate_hash,
                root.eligible_count,
                root.participants_commitment,
            );
            root.begin_radix(seed, target);
            Ok(false)
        }
    } else if root.phase == PHASE_RADIX {
        let ghost h = root.histogram@;
        let ghost r = root.remaining_rank as int;
        let finished = root.finish_radix_pass();
        proof {
            if r > 0 && hist_sum(h, 256) >= r {
                let b = choose|b: int| is_rank_bucket(h, r, b);
                assert(is_rank_bucket(h, r, b));
                assert forall|b2: int| #[trigger] is_rank_bucket(h, r, b2) implies b2 == b by {
                    lemma_rank_bucket_unique(h, r, b, b2);
                }
            }
        }
        match finished {
            Ok(()) => {
                proof {
                    let b = choose|b: int| is_rank_bucket(h, r, b);
                    assert(radix_pass_step(*old(root), *root, b));
                }
                Ok(false)
            },
            Err(e) => Err(e),
        }
    } else if root.phase == PHASE_RESOLVING {
        if root.threshold_found == 0 {
            return Err(GiveawayError::NoEligibleParticipants);
        }
        root.begin_emitting();
        Ok(false)
    } else if root.phase == PHASE_EMITTING {
        if root.emitted_count() != root.target_winners {
            return Err(GiveawayError::InvalidAccount);
        }
        root.complete(now);
        Ok(true)
    } else {
        Ok(false)
    }
}

/// The per-winner payout of `winners_count` equal shares of the winners
/// pool (0 when there is no winner).
pub open spec fn spec_per_winner(pool: u64, winners_count: u32) -> u64 {
    if winners_count == 0 {
        0
    } else {
        (pool / winners_count as u64) as u64
    }
}

/// The error, if any, of writing the settlement root.
pub open spec fn spec_settlement_error(giveaway: Giveaway, winners_count: u32) -> Option<
    GiveawayError,
> {
    let per_winner = spec_per_winner(
        spec_winners_pool(giveaway.total_payout_lamports, giveaway.service_fee_bps),
        winners_count,
    );
    if winners_count > 0 && per_winner < MIN_WINNER_PAYOUT_LAMPORTS {
        Some(GiveawayError::InsufficientFunds)
    } else if giveaway.recompute_version == u32::MAX {
        Some(GiveawayError::MathOverflow)
    } else {
        None
    }
}

/// The locked settlement root a completed run writes, and the giveaway it
/// leaves computed and locked, under the next recompute version.
pub open spec fn spec_settlement(
    giveaway: Giveaway,
    giveaway_key: Seq<u8>,
    root: FinalizationLedger,
    now: i64,
    giveaway1: Giveaway,
    winners1: WinnersLedger,
) -> bool {
    let count = root.target_winners;
    let per_winner = spec_per_winner(
        spec_winners_pool(giveaway.total_payout_lamports, giveaway.service_fee_bps),
        count,
    );
    &&& giveaway1 == Giveaway {
        winners_computed: true,
        winners_locked: true,
        recompute_version: (giveaway.recompute_version + 1) as u32,
        ..giveaway
    }
    &&& winners1.giveaway@ == giveaway_key
    &&& winners1.winners_commitment@ == spec_threshold_commitment(root.threshold_key@, count)
    &&& winners1.reserved@ == root.seed@ + Seq::new(96, |i: int| 0u8)
    &&& winners1 == WinnersLedger {
        giveaway: winners1.giveaway,
        protocol_version: 2,
        threshold_key: root.threshold_key,
        winners_commitment: winners1.winners_commitment,
        winners_count: count,
        total_payout_lamports: (count * per_winner) as u64,
        per_winner_lamports: per_winner,
        paid_count: 0,
        batches_processed: 0,
        recompute_version: root.recompute_version,
        locked: true,
        computed_at_unix: now,
        locked_at_unix: now,
        settlement_started_at_unix: 0,
        settlement_completed_at_unix: 0,
        reserved: winners1.reserved,
    }
}

/// The events of a written settlement root.
pub open spec fn spec_settlement_events(
    giveaway: Giveaway,
    giveaway_key: Seq<u8>,
    winners_key: Seq<u8>,
    root: FinalizationLedger,
    now: i64,
) -> Seq<GiveawayEventView> {
    let count = root.target_winners;
    let per_winner = spec_per_winner(
        spec_winners_pool(giveaway.total_payout_lamports, giveaway.service_fee_bps),
        count,
    );
    seq![
        GiveawayEventView::WinnersComputed {
            giveaway_id: giveaway.id,
            giveaway: spec_pubkey_base58(giveaway_key),
            winners_ledger: spec_pubkey_base58(winners_key),
            merkle_root: spec_hex_lower(spec_threshold_commitment(root.threshold_key@, count)),
            seed: spec_hex_lower(root.seed@),
            rule_version: GIVEAWAY_RULE_VERSION_V4@,
            total_eligible: root.eligible_count,
            winners_count: count,
            total_payout_lamports: (count * per_winner) as u64,
            per_winner_lamports: per_winner,
            recompute_version: root.recompute_version,
            winners: Seq::empty(),
            timestamp: now,
        },
        GiveawayEventView::WinnersLocked {
            giveaway_id: giveaway.id,
            giveaway: spec_pubkey_base58(giveaway_key),
            winners_ledger: spec_pubkey_base58(winners_key),
            final_recompute_version: (giveaway.recompute_version + 1) as u32,
            final_winners_count: count,
            timestamp: now,
        },
    ]
}

fn finalize_settlement_root(
    giveaway: &mut Giveaway,
    giveaway_key: &Pubkey,
    winners: &mut WinnersLedger,
    winners_key: &Pubkey,
    root: &FinalizationLedger,
    now: i64,
) -> (result: Result<Vec<GiveawayEvent>, GiveawayError>)
    ensures
        result is Err ==> *final(giveaway) == *old(giveaway) && *final(winners) == *old(winners),
        spec_settlement_error(*old(giveaway), root.target_winners) matches Some(e) ==> result
            == Err::<Vec<GiveawayEvent>, _>(e),
        spec_settlement_error(*old(giveaway), root.target_winners) is None ==> (result matches Ok(
            events,
        ) && spec_settlement(
            *old(giveaway),
            giveaway_key@,
            *root,
            now,
            *final(giveaway),
            *final(winners),
        ) && events_view(events@) == spec_settlement_events(
            *old(giveaway),
            giveaway_key@,
            winners_key@,
            *root,
            now,
        )),
{
    let winners_count = root.target_winners;
    let pool = giveaway.calculate_winners_pool();
    let per_winner: u64 = if winners_count == 0 {
        0
    } else {
        pool / winners_count as u64
    };
    if winners_count > 0 && per_winner < MIN_WINNER_PAYOUT_LAMPORTS {
        return Err(GiveawayError::InsufficientFunds);
    }
    assert(winners_count * per_winner <= pool) by (nonlinear_arith)
        requires
            per_winner == (if winners_count == 0 {
                0
            } else {
                pool / winners_count as u64
            }),
    ;
    let total = match (winners_count as u64).checked_mul(per_winner) {
        Some(total) => total,
        None => {
            return Err(GiveawayError::MathOverflow);
        },
    };
    if giveaway.recompute_version == u32::MAX {
        return Err(GiveawayError::MathOverflow);
    }
    let commitment = compute_threshold_commitment(&root.threshold_key, winners_count);
    winners.initialize(
        *giveaway_key,
        root.threshold_key,
        commitment,
        winners_count,
        total,
        per_winner,
        root.recompute_version,
        now,
    );
    let ghost initialized = *winners;
    let mut i: usize = 0;
    while i < 32
        invariant
            i <= 32,
            *winners == (WinnersLedger { reserved: winners.reserved, ..initialized }),
            winners.reserved@.len() == 128,
            forall|j: int| 0 <= j < i ==> winners.reserved@[j] == root.seed@[j],
            forall|j: int| i <= j < 128 ==> winners.reserved@[j] == 0u8,
        decreases 32 - i,
    {
        winners.reserved[i] = root.seed[i];
        i = i + 1;
    }
    assert(winners.reserved@ =~= root.seed@ + Seq::new(96, |i: int| 0u8));
    giveaway.mark_winners_computed()?;
    giveaway.lock_winners();
    winners.lock(now);
    let computed = GiveawayEvent::WinnersComputed {
        giveaway_id: giveaway.id,
        giveaway: pubkey_to_string(giveaway_key),
        winners_ledger: pubkey_to_string(winners_key),
        merkle_root: hex_encode(commitment.as_slice()),
        seed: hex_encode(root.seed.as_slice()),
        rule_version: GIVEAWAY_RULE_VERSION_V4.to_owned(),
        total_eligible: root.eligible_count,
        winners_count,
        total_payout_lamports: total,
        per_winner_lamports: per_winner,
        recompute_version: root.recompute_version,
        winners: Vec::new(),
        timestamp: now,
    };
    let locked = GiveawayEvent::WinnersLocked {
        giveaway_id: giveaway.id,
        giveaway: pubkey_to_string(giveaway_key),
        winners_ledger: pubkey_to_string(winners_key),
        final_recompute_version: giveaway.recompute_version,
        final_winners_count: winners.winners_count,
        timestamp: now,
    };
    let events = vec![computed, locked];
    proof {
        let expected = spec_settlement_events(
            *old(giveaway),
            giveaway_key@,
            winners_key@,
            *root,
            now,
        );
        if let GiveawayEvent::WinnersComputed { winners: w, .. } = events@[0] {
            assert(strings_view(w@) =~= Seq::<Seq<char>>::empty());
        }
        assert(events_view(events@).len() == 2);
        assert(events_view(events@)[1] == expected[1]);
        assert(events_view(events@)[0] == expected[0]);
        assert(events_view(events@) =~~= spec_settlement_events(
            *old(giveaway),
            giveaway_key@,
            winners_key@,
            *root,
            now,
        ));
    }
    Ok(events)
}

/// Accounts of the finalization instruction. The participant accounts of
/// the chunk are rewritten in place.
pub struct FinalizeWinners {
    pub config: Config,
    pub giveaway_key: Pubkey,
    pub giveaway: Giveaway,
    pub vault: Pubkey,
    pub winners_ledger_key: Pubkey,
    pub winners_ledger: WinnersLedger,
    pub finalization_ledger_key: Pubkey,
    pub finalization_ledger: FinalizationLedger,
    /// The signer funding account creation.
    pub authority: Pubkey,
    /// The participant accounts of this chunk, in canonical index order.
    pub remaining_accounts: Vec<ParticipantAccountInfo>,
}

/// How a finalization call begins.
pub enum FinalizeStart {
    /// A check fails with this error.
    Fail(GiveawayError),
    /// Attested reveals are missing after the upload window: remediation opens.
    Remediate,
    /// The run already completed: nothing more is done.
    AlreadyComplete,
    /// The chunk is processed.
    Run,
}

/// The ledger has not been started: its giveaway is the default address.
pub open spec fn spec_fresh_ledger(root: FinalizationLedger) -> bool {
    root.giveaway@ == zero_bytes(32)
}

/// The error, if any, of a started ledger that does not belong to this run.
pub open spec fn spec_ledger_mismatch(
    root: FinalizationLedger,
    giveaway_key: Seq<u8>,
    generation: u32,
    required_count: u64,
) -> Option<GiveawayError> {
    if root.giveaway@ != giveaway_key {
        Some(GiveawayError::InvalidAccount)
    } else if root.protocol_version != FINALIZATION_PROTOCOL_VERSION {
        Some(GiveawayError::InvalidAccount)
    } else if root.recompute_version != generation {
        Some(GiveawayError::InvalidInstruction)
    } else if root.required_count != required_count {
        Some(GiveawayError::InvalidInstruction)
    } else {
        None
    }
}

/// The generation (next recompute version) a run finalizes.
pub open spec fn spec_generation(g: Giveaway) -> u32 {
    (g.recompute_version + 1) as u32
}

/// How a finalization call over these accounts at `now` begins.
pub open spec fn spec_finalize_start(ctx: FinalizeWinners, now: i64) -> FinalizeStart {
    let g = ctx.giveaway;
    let root = ctx.finalization_ledger;
    if g.settled {
        FinalizeStart::Fail(GiveawayError::GiveawayAlreadySettled)
    } else if g.winners_locked {
        FinalizeStart::Fail(GiveawayError::WinnersLocked)
    } else if ctx.vault@ != g.vault@ {
        FinalizeStart::Fail(GiveawayError::InvalidAccount)
    } else if !spec_ready_for_settlement(g, now) {
        FinalizeStart::Fail(GiveawayError::SettlementNotReady)
    } else if g.attested_count == 0 {
        FinalizeStart::Fail(GiveawayError::NoEligibleParticipants)
    } else if spec_missing_attested_reveals(g) {
        if now >= g.upload_deadline_unix && g.remediation_start_unix == 0 {
            FinalizeStart::Remediate
        } else {
            FinalizeStart::Fail(GiveawayError::MissingAttestedParticipants)
        }
    } else if g.recompute_version == u32::MAX {
        FinalizeStart::Fail(GiveawayError::MathOverflow)
    } else if !spec_fresh_ledger(root) && spec_ledger_mismatch(
        root,
        ctx.giveaway_key@,
        spec_generation(g),
        g.participants_count,
    ) is Some {
        FinalizeStart::Fail(
            spec_ledger_mismatch(
                root,
                ctx.giveaway_key@,
                spec_generation(g),
                g.participants_count,
            )->0,
        )
    } else if !spec_fresh_ledger(root) && root.completed != 0 {
        FinalizeStart::AlreadyComplete
    } else if ctx.remaining_accounts@.len() == 0 {
        FinalizeStart::Fail(GiveawayError::InvalidInstruction)
    } else {
        FinalizeStart::Run
    }
}

/// The ledger a run continues from: a fresh ledger for this generation, or
/// the started one.
pub open spec fn spec_start_root(ctx: FinalizeWinners, now: i64, root0: FinalizationLedger) -> bool {
    let g = ctx.giveaway;
    if spec_fresh_ledger(ctx.finalization_ledger) {
        &&& root0.seed@ == zeros32()
        &&& root0.participants_commitment@ == zeros32()
        &&& root0.prefix@ == zeros64()
        &&& root0.histogram@ == empty_histogram()
        &&& root0.threshold_key@ == zeros64()
        &&& root0.reserved@ == zeros64()
        &&& root0 == FinalizationLedger {
            giveaway: ctx.giveaway_key,
            protocol_version: FINALIZATION_PROTOCOL_VERSION,
            recompute_version: spec_generation(g),
            phase: PHASE_AGGREGATING,
            required_count: g.participants_count,
            processed_count: 0,
            eligible_count: 0,
            target_winners: 0,
            seed: root0.seed,
            participants_commitment: root0.participants_commitment,
            prefix: root0.prefix,
            prefix_len: 0,
            remaining_rank: 0,
            histogram: root0.histogram,
            threshold_key: root0.threshold_key,
            threshold_found: 0,
            completed: 0,
            started_at_unix: now,
            completed_at_unix: 0,
            reserved: root0.reserved,
        }
    } else {
        root0 == ctx.finalization_ledger
    }
}

/// The giveaway once every attested reveal is known to be included.
pub open spec fn spec_uploads_checked(g: Giveaway) -> Giveaway {
    Giveaway { uploads_complete: true, ..g }
}

/// After the chunk's steps left the ledger at `root_n`, the pass-count check,
/// the pass close or the settlement root fails with `e`.
pub open spec fn spec_after_batch_fails(
    root_n: FinalizationLedger,
    g: Giveaway,
    now: i64,
    e: GiveawayError,
) -> bool {
    if root_n.processed_count > root_n.required_count {
        e == GiveawayError::InvalidInstruction
    } else {
        &&& root_n.processed_count == root_n.required_count
        &&& (spec_close_error(root_n) == Some(e) || (spec_close_error(root_n) is None && exists|
            root_f: FinalizationLedger,
        |
            #[trigger] spec_close(
                root_n,
                g.number_of_winners,
                g.id,
                g.poc_aggregate_hash@,
                now,
                root_f,
                true,
            ) && spec_settlement_error(spec_uploads_checked(g), root_f.target_winners) == Some(e)))
    }
}

/// A run over the chunk fails with `e`.
pub open spec fn spec_run_fails(
    ctx: FinalizeWinners,
    program_id: Seq<u8>,
    now: i64,
    e: GiveawayError,
) -> bool {
    exists|root0: FinalizationLedger|
        #[trigger] spec_start_root(ctx, now, root0) && (spec_batch_fails(
            program_id,
            ctx.giveaway_key@,
            root0,
            ctx.remaining_accounts@,
            now,
            e,
        ) || exists|
            root_n: FinalizationLedger,
            outs: Seq<ParticipantAccountInfo>,
            evs: Seq<GiveawayEventView>,
        |
            #[trigger] spec_batch_outcome(
                program_id,
                ctx.giveaway_key@,
                ctx.giveaway.id,
                root0,
                ctx.remaining_accounts@,
                now,
                root_n,
                outs,
                evs,
            ) && spec_after_batch_fails(root_n, ctx.giveaway, now, e))
}

/// The chunk summary event.
pub open spec fn spec_chunk_event(
    ctx: FinalizeWinners,
    root_f: FinalizationLedger,
    completed: bool,
    now: i64,
) -> GiveawayEventView {
    GiveawayEventView::FinalizationChunkProcessed {
        giveaway_id: ctx.giveaway.id,
        giveaway: spec_pubkey_base58(ctx.giveaway_key@),
        finalization_ledger: spec_pubkey_base58(ctx.finalization_ledger_key@),
        recompute_version: root_f.recompute_version,
        batch_size: ctx.remaining_accounts@.len() as u32,
        processed_count: if completed {
            root_f.required_count
        } else {
            root_f.processed_count
        },
        required_count: root_f.required_count,
        eligible_count: root_f.eligible_count,
        candidate_count: root_f.target_winners,
        completed,
        timestamp: now,
    }
}

/// A successful run over the chunk: from the starting ledger, the steps
/// rewrite the chunk's accounts; once the pass has seen every entry it is
/// closed; a completed run writes the locked settlement root.
pub open spec fn spec_run(
    ctx: FinalizeWinners,
    program_id: Seq<u8>,
    now: i64,
    ctx1: FinalizeWinners,
    events: Seq<GiveawayEventView>,
) -> bool {
    let g1 = spec_uploads_checked(ctx.giveaway);
    let completed = ctx1.finalization_ledger.completed != 0;
    exists|root0: FinalizationLedger, root_n: FinalizationLedger, batch_events: Seq<GiveawayEventView>|
        #[trigger] spec_start_root(ctx, now, root0) && #[trigger] spec_batch_outcome(
            program_id,
            ctx.giveaway_key@,
            ctx.giveaway.id,
            root0,
            ctx.remaining_accounts@,
            now,
            root_n,
            ctx1.remaining_accounts@,
            batch_events,
        ) && root_n.processed_count <= root_n.required_count && (if root_n.processed_count
            == root_n.required_count {
            spec_close(
                root_n,
                ctx.giveaway.number_of_winners,
                ctx.giveaway.id,
                ctx.giveaway.poc_aggregate_hash@,
                now,
                ctx1.finalization_ledger,
                completed,
            )
        } else {
            ctx1.finalization_ledger == root_n && !completed
        }) && (if completed {
            &&& spec_settlement(
                g1,
                ctx.giveaway_key@,
                ctx1.finalization_ledger,
                now,
                ctx1.giveaway,
                ctx1.winners_ledger,
            )
            &&& events == batch_events + spec_settlement_events(
                g1,
                ctx.giveaway_key@,
                ctx.winners_ledger_key@,
                ctx1.finalization_ledger,
                now,
            ) + seq![spec_chunk_event(ctx, ctx1.finalization_ledger, completed, now)]
        } else {
            &&& ctx1.giveaway == g1
            &&& ctx1.winners_ledger == ctx.winners_ledger
            &&& events == batch_events + seq![
                spec_chunk_event(ctx, ctx1.finalization_ledger, completed, now),
            ]
        })
}

/// The accounts a call leaves, apart from the giveaway, the two ledgers and
/// the chunk's participant accounts, are those it was given.
pub open spec fn spec_same_frame(ctx: FinalizeWinners, ctx1: FinalizeWinners) -> bool {
    &&& ctx1.config == ctx.config
    &&& ctx1.giveaway_key == ctx.giveaway_key
    &&& ctx1.vault == ctx.vault
    &&& ctx1.winners_ledger_key == ctx.winners_ledger_key
    &&& ctx1.finalization_ledger_key == ctx.finalization_ledger_key
    &&& ctx1.authority == ctx.authority
}

/// Processes one chunk of participant accounts (in canonical index order)
/// through the current finalization phase, closes the pass when every entry
/// was seen, and writes the locked settlement root when the run completes.
pub fn process(ctx: &mut FinalizeWinners, program_id: &Pubkey, now: i64) -> (result: Result<
    Vec<GiveawayEvent>,
    GiveawayError,
>)
    requires
        ledger_wf(old(ctx).finalization_ledger),
        spec_finalize_start(*old(ctx), now) is Remediate ==> now + DEFAULT_REMEDIATION_WINDOW_SECS
            <= i64::MAX,
    ensures
        result is Err ==> *final(ctx) == *old(ctx),
        old(ctx).giveaway.winners_locked ==> final(ctx).giveaway.winners_locked,
        spec_finalize_start(*old(ctx), now) matches FinalizeStart::Fail(e) ==> result == Err::<
            Vec<GiveawayEvent>,
            _,
        >(e),
        spec_finalize_start(*old(ctx), now) is Remediate ==> (result matches Ok(events) && {
            let g = old(ctx).giveaway;
            &&& *final(ctx) == (FinalizeWinners {
                giveaway: Giveaway {
                    remediation_start_unix: now,
                    remediation_deadline_unix: (now + DEFAULT_REMEDIATION_WINDOW_SECS) as i64,
                    ..g
                },
                ..*old(ctx)
            })
            &&& events_view(events@) == seq![
                GiveawayEventView::RevealRemediationBegan {
                    giveaway_id: g.id,
                    giveaway: spec_pubkey_base58(old(ctx).giveaway_key@),
                    included_reveals_count: g.provider_uploaded_count,
                    attested_count: g.attested_count,
                    remediation_start_unix: now,
                    remediation_deadline_unix: (now + DEFAULT_REMEDIATION_WINDOW_SECS) as i64,
                    timestamp: now,
                },
            ]
        }),
        spec_finalize_start(*old(ctx), now) is AlreadyComplete ==> (result matches Ok(events)
            && events@.len() == 0 && *final(ctx) == (FinalizeWinners {
            giveaway: spec_uploads_checked(old(ctx).giveaway),
            ..*old(ctx)
        })),
        spec_finalize_start(*old(ctx), now) is Run ==> {
            &&& result matches Err(e) ==> spec_run_fails(*old(ctx), program_id@, now, e)
            &&& result matches Ok(events) ==> spec_run(
                *old(ctx),
                program_id@,
                now,
                *final(ctx),
                events_view(events@),
            ) && spec_same_frame(*old(ctx), *final(ctx)) && ledger_wf(final(ctx).finalization_ledger)
        },
{
    if ctx.giveaway.settled {
        return Err(GiveawayError::GiveawayAlreadySettled);
    }
    if ctx.giveaway.winners_locked {
        return Err(GiveawayError::WinnersLocked);
    }
    if !pubkey_eq(&ctx.vault, &ctx.giveaway.vault) {
        return Err(GiveawayError::InvalidAccount);
    }
    if !ctx.giveaway.is_ready_for_settlement(now) {
        return Err(GiveawayError::SettlementNotReady);
    }
    if ctx.giveaway.attested_count == 0 {
        return Err(GiveawayError::NoEligibleParticipants);
    }
    if ctx.giveaway.has_missing_attested_reveals() {
        if now >= ctx.giveaway.upload_deadline_unix && ctx.giveaway.remediation_start_unix == 0 {
            ctx.giveaway.begin_remediation(now);
            let event = GiveawayEvent::RevealRemediationBegan {
                giveaway_id: ctx.giveaway.id,
                giveaway: pubkey_to_string(&ctx.giveaway_key),
                included_reveals_count: ctx.giveaway.provider_uploaded_count,
                attested_count: ctx.giveaway.attested_count,
                remediation_start_unix: ctx.giveaway.remediation_start_unix,
                remediation_deadline_unix: ctx.giveaway.remediation_deadline_unix,
                timestamp: now,
            };
            let events = vec![event];
            assert(events_view(events@) =~= seq![events@[0]@]);
            return Ok(events);
        }
        return Err(GiveawayError::MissingAttestedParticipants);
    }
    let mut giveaway = ctx.giveaway;
    if giveaway.attested_reveals_complete() {
        giveaway.uploads_complete = true;
    }
    let generation = match giveaway.recompute_version.checked_add(1) {
        Some(next) => next,
        None => {
            return Err(GiveawayError::MathOverflow);
        },
    };
    let ghost ctx0 = *old(ctx);
    let mut root = ctx.finalization_ledger;
    if is_all_zero(root.giveaway.as_slice()) {
        let giveaway_key = ctx.giveaway_key;
        let required = giveaway.participants_count;
        root.initialize(giveaway_key, generation, required, now);
    } else {
        if !pubkey_eq(&root.giveaway, &ctx.giveaway_key) {
            return Err(GiveawayError::InvalidAccount);
        }
        if root.protocol_version != FINALIZATION_PROTOCOL_VERSION {
            return Err(GiveawayError::InvalidAccount);
        }
        if root.recompute_version != generation {
            return Err(GiveawayError::InvalidInstruction);
        }
        if root.required_count != giveaway.participants_count {
            return Err(GiveawayError::InvalidInstruction);
        }
        if root.completed != 0 {
            ctx.giveaway = giveaway;
            return Ok(Vec::new());
        }
    }
    let ghost root0 = root;
    assert(spec_start_root(ctx0, now, root0));
    if ctx.remaining_accounts.len() == 0 {
        return Err(GiveawayError::InvalidInstruction);
    }
    let giveaway_id = giveaway.id;
    let giveaway_key = ctx.giveaway_key;
    let (outs, mut events) = match process_batch(
        program_id,
        giveaway_id,
        &giveaway_key,
        &mut root,
        &ctx.remaining_accounts,
        now,
    ) {
        Ok(r) => r,
        Err(e) => {
            assert(spec_run_fails(ctx0, program_id@, now, e));
            return Err(e);
        },
    };
    let ghost root_n = root;
    let ghost batch_events = events_view(events@);
    let batch_size = ctx.remaining_accounts.len() as u32;
    if root.processed_count > root.required_count {
        proof {
            assert(spec_batch_outcome(
                program_id@,
                ctx0.giveaway_key@,
                ctx0.giveaway.id,
                root0,
                ctx0.remaining_accounts@,
                now,
                root_n,
                outs@,
                batch_events,
            ));
            assert(spec_run_fails(ctx0, program_id@, now, GiveawayError::InvalidInstruction));
        }
        return Err(GiveawayError::InvalidInstruction);
    }
    let mut completed = false;
    if root.processed_count == root.required_count {
        let number_of_winners = giveaway.number_of_winners;
        let aggregate_hash = giveaway.poc_aggregate_hash;
        completed = match close_pass(
            &mut root,
            number_of_winners,
            giveaway_id,
            aggregate_hash,
            now,
        ) {
            Ok(done) => done,
            Err(e) => {
                proof {
                    assert(spec_batch_outcome(
                        program_id@,
                        ctx0.giveaway_key@,
                        ctx0.giveaway.id,
                        root0,
                        ctx0.remaining_accounts@,
                        now,
                        root_n,
                        outs@,
                        batch_events,
                    ));
                    assert(spec_after_batch_fails(root_n, ctx0.giveaway, now, e));
                    assert(spec_run_fails(ctx0, program_id@, now, e));
                }
                return Err(e);
            },
        };
    }
    let ghost root_f = root;
    let mut winners_ledger = ctx.winners_ledger;
    if completed {
        let winners_key = ctx.winners_ledger_key;
        let settlement_events = match finalize_settlement_root(
            &mut giveaway,
            &giveaway_key,
            &mut winners_ledger,
            &winners_key,
            &root,
            now,
        ) {
            Ok(evs) => evs,
            Err(e) => {
                proof {
                    assert(spec_batch_outcome(
                        program_id@,
                        ctx0.giveaway_key@,
                        ctx0.giveaway.id,
                        root0,
                        ctx0.remaining_accounts@,
                        now,
                        root_n,
                        outs@,
                        batch_events,
                    ));
                    assert(spec_close(
                        root_n,
                        ctx0.giveaway.number_of_winners,
                        ctx0.giveaway.id,
                        ctx0.giveaway.poc_aggregate_hash@,
                        now,
                        root_f,
                        true,
                    ));
                    assert(spec_after_batch_fails(root_n, ctx0.giveaway, now, e));
                    assert(spec_run_fails(ctx0, program_id@, now, e));
                }
                return Err(e);
            },
        };
        let mut settlement_events = settlement_events;
        let ghost before = events@;
        let ghost added = settlement_events@;
        events.append(&mut settlement_events);
        assert(events_view(events@) =~= events_view(before) + events_view(added));
    }
    let ghost before_chunk = events@;
    let chunk = GiveawayEvent::FinalizationChunkProcessed {
        giveaway_id,
        giveaway: pubkey_to_string(&giveaway_key),
        finalization_ledger: pubkey_to_string(&ctx.finalization_ledger_key),
        recompute_version: root.recompute_version,
        batch_size,
        processed_count: if completed {
            root.required_count
        } else {
            root.processed_count
        },
        required_count: root.required_count,
        eligible_count: root.eligible_count,
        candidate_count: root.target_winners,
        completed,
        timestamp: now,
    };
    events.push(chunk);
    ctx.giveaway = giveaway;
    ctx.finalization_ledger = root;
    ctx.winners_ledger = winners_ledger;
    ctx.remaining_accounts = outs;
    proof {
        assert(root0.completed == 0);
        assert(root_n.completed == 0);
        assert(completed == (root_f.completed != 0));
        assert(events_view(events@) =~= events_view(before_chunk) + seq![events@.last()@]);
        assert(spec_batch_outcome(
            program_id@,
            ctx0.giveaway_key@,
            ctx0.giveaway.id,
            root0,
            ctx0.remaining_accounts@,
            now,
            root_n,
            ctx.remaining_accounts@,
            batch_events,
        ));
        assert(spec_run(ctx0, program_id@, now, *ctx, events_view(events@)));
    }
    Ok(events)
}

/// Complete uploads never wait for the upload deadline: when every attested
/// reveal is included (`uploads_complete`), finalization is never refused
/// as not ready, and with the upload window still open and not every
/// participant attested it is refused as not ready only without them.
pub proof fn lemma_complete_uploads_are_ready(ctx: FinalizeWinners, now: i64)
    ensures
        ctx.giveaway.uploads_complete ==> spec_finalize_start(ctx, now) != FinalizeStart::Fail(
            GiveawayError::SettlementNotReady,
        ),
        spec_finalize_start(ctx, now) == FinalizeStart::Fail(GiveawayError::SettlementNotReady)
            ==> now < ctx.giveaway.upload_deadline_unix && !ctx.giveaway.uploads_complete && !(
        ctx.giveaway.participants_count > 0 && ctx.giveaway.attested_count
            == ctx.giveaway.participants_count),
{
}

} // verus!
