//! Proof-of-chance reveal verification, entropy aggregation, deterministic
//! winner ranking and the indexed merkle tree of winner leaves.
use vstd::prelude::*;
use vstd::bytes::*;
use vstd::string::StringSliceAdditionalSpecFns;
use vstd::utf8::*;
use crate::bytes::{append_bytes, pubkey_eq, to_array32, Pubkey};
use crate::address::string_from_utf8;
use crate::constants::{
    giveaway_draw_domain_v1, giveaway_finalization_seed_domain_v2,
    giveaway_finalization_seed_domain_v3, giveaway_participant_domain_v3,
    giveaway_rank_domain_v2, giveaway_reveal_domain_v1, giveaway_seed_domain_v1,
    giveaway_threshold_domain_v2, spec_giveaway_draw_domain_v1,
    spec_giveaway_finalization_seed_domain_v2, spec_giveaway_finalization_seed_domain_v3,
    spec_giveaway_participant_domain_v3, spec_giveaway_rank_domain_v2,
    spec_giveaway_reveal_domain_v1, spec_giveaway_seed_domain_v1,
    spec_giveaway_threshold_domain_v2, MAX_LUCKY_WORDS_LEN, MAX_SALT_LEN, REVEAL_SEPARATOR,
};
use crate::error::GiveawayError;
use crate::hashing::{sha256, spec_sha256};

verus! {

/// Canonical reveal plaintext: `lucky_words || 0x1f || salt`.
pub open spec fn spec_reveal_plaintext(lucky_words: Seq<u8>, salt: Seq<u8>) -> Seq<u8> {
    lucky_words + seq![REVEAL_SEPARATOR] + salt
}

/// Whether reveal parts fit the protocol limits.
pub open spec fn reveal_parts_fit(lucky_words: Seq<u8>, salt: Seq<u8>) -> bool {
    lucky_words.len() <= MAX_LUCKY_WORDS_LEN && salt.len() <= MAX_SALT_LEN
}

/// Builds the canonical reveal plaintext `lucky_words || 0x1f || salt`.
pub fn build_reveal_plaintext(lucky_words: &str, salt: &[u8]) -> (result: Result<
    Vec<u8>,
    GiveawayError,
>)
    ensures
        reveal_parts_fit(lucky_words.spec_bytes(), salt@) ==> (result matches Ok(p) && p@
            == spec_reveal_plaintext(lucky_words.spec_bytes(), salt@)),
        !reveal_parts_fit(lucky_words.spec_bytes(), salt@) ==> result == Err::<Vec<u8>, _>(
            GiveawayError::TextTooLong,
        ),
{
    let words = lucky_words.as_bytes();
    if !(words.len() <= MAX_LUCKY_WORDS_LEN && salt.len() <= MAX_SALT_LEN) {
        return Err(GiveawayError::TextTooLong);
    }
    let mut plaintext: Vec<u8> = Vec::new();
    append_bytes(&mut plaintext, words);
    plaintext.push(REVEAL_SEPARATOR);
    append_bytes(&mut plaintext, salt);
    Ok(plaintext)
}

/// Verifies a proof-of-chance reveal against its commitment: the commitment
/// must be the SHA-256 of the canonical plaintext.
pub fn verify_reveal(commitment_hash: &[u8; 32], lucky_words: &str, salt: &[u8]) -> (result:
    Result<bool, GiveawayError>)
    ensures
        reveal_parts_fit(lucky_words.spec_bytes(), salt@) ==> result == Ok::<bool, GiveawayError>(
            spec_sha256(spec_reveal_plaintext(lucky_words.spec_bytes(), salt@))
                == commitment_hash@,
        ),
        !reveal_parts_fit(lucky_words.spec_bytes(), salt@) ==> result == Err::<bool, _>(
            GiveawayError::TextTooLong,
        ),
{
    let plaintext = build_reveal_plaintext(lucky_words, salt)?;
    let computed = sha256(plaintext.as_slice());
    Ok(pubkey_eq(&computed, commitment_hash))
}

/// Domain-separated digest of one reveal:
/// `SHA-256(domain || wallet || le32(len) || plaintext)`.
pub open spec fn spec_reveal_digest(wallet: Seq<u8>, plaintext: Seq<u8>) -> Seq<u8> {
    spec_sha256(
        spec_giveaway_reveal_domain_v1() + wallet + spec_u32_to_le_bytes(plaintext.len() as u32)
            + plaintext,
    )
}

/// Domain-separated digest of one reveal; this digest, not the bare
/// commitment, is the entropy input.
pub fn compute_reveal_digest(wallet: &Pubkey, plaintext: &[u8]) -> (digest: [u8; 32])
    ensures
        digest@ == spec_reveal_digest(wallet@, plaintext@),
{
    let mut message = giveaway_reveal_domain_v1();
    append_bytes(&mut message, wallet.as_slice());
    let len_bytes = u32_to_le_bytes(plaintext.len() as u32);
    append_bytes(&mut message, len_bytes.as_slice());
    append_bytes(&mut message, plaintext);
    sha256(message.as_slice())
}

/// Byte-wise XOR of two 32-byte values.
pub open spec fn xor32(a: Seq<u8>, b: Seq<u8>) -> Seq<u8> {
    Seq::new(32, |i: int| a[i] ^ b[i])
}

/// XOR of `initial` with every digest of `digests`, applied in order.
pub open spec fn spec_xor_all(initial: Seq<u8>, digests: Seq<[u8; 32]>) -> Seq<u8>
    decreases digests.len(),
{
    if digests.len() == 0 {
        initial
    } else {
        xor32(spec_xor_all(initial, digests.drop_last()), digests.last()@)
    }
}

/// XOR of `initial` with every digest of `digests` (as byte strings),
/// applied in order.
pub open spec fn spec_xor_all_bytes(initial: Seq<u8>, digests: Seq<Seq<u8>>) -> Seq<u8>
    decreases digests.len(),
{
    if digests.len() == 0 {
        initial
    } else {
        xor32(spec_xor_all_bytes(initial, digests.drop_last()), digests.last())
    }
}

/// The aggregate over digest arrays is the aggregate over their bytes.
pub proof fn lemma_xor_all_bytes(initial: Seq<u8>, digests: Seq<[u8; 32]>)
    ensures
        spec_xor_all(initial, digests) == spec_xor_all_bytes(
            initial,
            digests.map_values(|d: [u8; 32]| d@),
        ),
    decreases digests.len(),
{
    if digests.len() > 0 {
        assert(digests.map_values(|d: [u8; 32]| d@).drop_last() =~= digests.drop_last().map_values(
            |d: [u8; 32]| d@,
        ));
        lemma_xor_all_bytes(initial, digests.drop_last());
    }
}

/// XORs reveal digests into a batch-order-independent aggregate.
pub fn xor_reveal_digests(initial: [u8; 32], digests: &[[u8; 32]]) -> (aggregate: [u8; 32])
    ensures
        aggregate@ == spec_xor_all(initial@, digests@),
{
    let mut aggregate = initial;
    let mut k: usize = 0;
    while k < digests.len()
        invariant
            k <= digests@.len(),
            aggregate@ == spec_xor_all(initial@, digests@.subrange(0, k as int)),
        decreases digests@.len() - k,
    {
        let digest = digests[k];
        let ghost before = aggregate@;
        let mut idx: usize = 0;
        while idx < 32
            invariant
                idx <= 32,
                aggregate@.len() == 32,
                before.len() == 32,
                forall|j: int| 0 <= j < idx ==> aggregate@[j] == before[j] ^ digest@[j],
                forall|j: int| idx <= j < 32 ==> aggregate@[j] == before[j],
            decreases 32 - idx,
        {
            aggregate[idx] = aggregate[idx] ^ digest[idx];
            idx = idx + 1;
        }
        assert(digests@.subrange(0, k + 1).drop_last() =~= digests@.subrange(0, k as int));
        assert(aggregate@ =~= xor32(before, digest@));
        k = k + 1;
    }
    assert(digests@.subrange(0, digests@.len() as int) =~= digests@);
    aggregate
}

/// Seed folding: `seed_{k+1} = SHA-256(seed_k || participant_k)`.
pub open spec fn spec_seed_chain(seed: Seq<u8>, participants: Seq<[u8; 32]>) -> Seq<u8>
    decreases participants.len(),
{
    if participants.len() == 0 {
        seed
    } else {
        spec_sha256(spec_seed_chain(seed, participants.drop_last()) + participants.last()@)
    }
}

/// The legacy winner-draw seed over a wallet-sorted eligible pool.
pub open spec fn spec_winner_seed(
    giveaway_id: u64,
    aggregate_hash: Seq<u8>,
    participants: Seq<[u8; 32]>,
) -> Seq<u8> {
    spec_seed_chain(
        spec_sha256(
            spec_giveaway_seed_domain_v1() + spec_u64_to_le_bytes(giveaway_id)
                + spec_u64_to_le_bytes(participants.len() as u64) + aggregate_hash,
        ),
        participants,
    )
}

/// Computes the deterministic seed used for the legacy winner draw.
pub fn compute_winner_seed(
    giveaway_id: u64,
    aggregate_hash: [u8; 32],
    eligible_participants_sorted: &[Pubkey],
) -> (seed: [u8; 32])
    ensures
        seed@ == spec_winner_seed(giveaway_id, aggregate_hash@, eligible_participants_sorted@),
{
    let mut message = giveaway_seed_domain_v1();
    let id_bytes = u64_to_le_bytes(giveaway_id);
    append_bytes(&mut message, id_bytes.as_slice());
    let len_bytes = u64_to_le_bytes(eligible_participants_sorted.len() as u64);
    append_bytes(&mut message, len_bytes.as_slice());
    append_bytes(&mut message, aggregate_hash.as_slice());
    let mut seed = sha256(message.as_slice());
    let ghost start = seed@;
    let mut k: usize = 0;
    while k < eligible_participants_sorted.len()
        invariant
            k <= eligible_participants_sorted@.len(),
            seed@ == spec_seed_chain(start, eligible_participants_sorted@.subrange(0, k as int)),
        decreases eligible_participants_sorted@.len() - k,
    {
        let mut round: Vec<u8> = Vec::new();
        append_bytes(&mut round, seed.as_slice());
        append_bytes(&mut round, eligible_participants_sorted[k].as_slice());
        seed = sha256(round.as_slice());
        assert(eligible_participants_sorted@.subrange(0, k + 1).drop_last()
            =~= eligible_participants_sorted@.subrange(0, k as int));
        k = k + 1;
    }
    assert(eligible_participants_sorted@.subrange(0, eligible_participants_sorted@.len() as int)
        =~= eligible_participants_sorted@);
    seed
}

/// `SHA-256(domain_v2 || le64(id) || aggregate)`.
pub open spec fn spec_finalization_seed(giveaway_id: u64, aggregate_hash: Seq<u8>) -> Seq<u8> {
    spec_sha256(
        spec_giveaway_finalization_seed_domain_v2() + spec_u64_to_le_bytes(giveaway_id)
            + aggregate_hash,
    )
}

/// Computes the base seed used by chunked top-K finalization.
pub fn compute_finalization_seed(giveaway_id: u64, aggregate_hash: [u8; 32]) -> (seed: [u8; 32])
    ensures
        seed@ == spec_finalization_seed(giveaway_id, aggregate_hash@),
{
    let mut message = giveaway_finalization_seed_domain_v2();
    let id_bytes = u64_to_le_bytes(giveaway_id);
    append_bytes(&mut message, id_bytes.as_slice());
    append_bytes(&mut message, aggregate_hash.as_slice());
    sha256(message.as_slice())
}

/// `SHA-256(domain || le64(id) || le64(eligible) || aggregate || commitment)`.
pub open spec fn spec_bound_seed(
    domain: Seq<u8>,
    giveaway_id: u64,
    aggregate_hash: Seq<u8>,
    eligible_count: u64,
    participants_commitment: Seq<u8>,
) -> Seq<u8> {
    spec_sha256(
        domain + spec_u64_to_le_bytes(giveaway_id) + spec_u64_to_le_bytes(eligible_count)
            + aggregate_hash + participants_commitment,
    )
}

fn bound_seed(
    mut message: Vec<u8>,
    giveaway_id: u64,
    aggregate_hash: &[u8; 32],
    eligible_count: u64,
    participants_commitment: &[u8; 32],
) -> (seed: [u8; 32])
    ensures
        seed@ == spec_bound_seed(
            message@,
            giveaway_id,
            aggregate_hash@,
            eligible_count,
            participants_commitment@,
        ),
{
    let ghost domain = message@;
    let id_bytes = u64_to_le_bytes(giveaway_id);
    append_bytes(&mut message, id_bytes.as_slice());
    let count_bytes = u64_to_le_bytes(eligible_count);
    append_bytes(&mut message, count_bytes.as_slice());
    append_bytes(&mut message, aggregate_hash.as_slice());
    append_bytes(&mut message, participants_commitment.as_slice());
    sha256(message.as_slice())
}

/// Binds the final seed to the eligible participant commitment (v2 domain).
pub fn compute_finalization_seed_v2(
    giveaway_id: u64,
    aggregate_hash: [u8; 32],
    eligible_count: u64,
    participants_commitment: [u8; 32],
) -> (seed: [u8; 32])
    ensures
        seed@ == spec_bound_seed(
            spec_giveaway_finalization_seed_domain_v2(),
            giveaway_id,
            aggregate_hash@,
            eligible_count,
            participants_commitment@,
        ),
{
    bound_seed(
        giveaway_finalization_seed_domain_v2(),
        giveaway_id,
        &aggregate_hash,
        eligible_count,
        &participants_commitment,
    )
}

/// Protocol-v3 seed bound to the canonical participant-index reveal
/// commitment.
pub fn compute_finalization_seed_v3(
    giveaway_id: u64,
    aggregate_hash: [u8; 32],
    eligible_count: u64,
    participants_commitment: [u8; 32],
) -> (seed: [u8; 32])
    ensures
        seed@ == spec_bound_seed(
            spec_giveaway_finalization_seed_domain_v3(),
            giveaway_id,
            aggregate_hash@,
            eligible_count,
            participants_commitment@,
        ),
{
    bound_seed(
        giveaway_finalization_seed_domain_v3(),
        giveaway_id,
        &aggregate_hash,
        eligible_count,
        &participants_commitment,
    )
}

/// A participant's ranking digest: `SHA-256(rank_domain || seed || wallet)`.
pub open spec fn spec_candidate_rank(seed: Seq<u8>, participant: Seq<u8>) -> Seq<u8> {
    spec_sha256(spec_giveaway_rank_domain_v2() + seed + participant)
}

/// Computes one participant's deterministic ranking digest.
pub fn compute_candidate_rank(seed: &[u8; 32], participant: &Pubkey) -> (rank: [u8; 32])
    ensures
        rank@ == spec_candidate_rank(seed@, participant@),
{
    let mut message = giveaway_rank_domain_v2();
    append_bytes(&mut message, seed.as_slice());
    append_bytes(&mut message, participant.as_slice());
    sha256(message.as_slice())
}

/// The radix key of a participant: ranking digest followed by wallet bytes.
pub open spec fn spec_candidate_key(seed: Seq<u8>, participant: Seq<u8>) -> Seq<u8> {
    spec_candidate_rank(seed, participant) + participant
}

/// Canonical radix key: domain-separated rank followed by wallet bytes.
pub fn compute_candidate_key(seed: &[u8; 32], participant: &Pubkey) -> (key: [u8; 64])
    ensures
        key@ == spec_candidate_key(seed@, participant@),
{
    let rank = compute_candidate_rank(seed, participant);
    let mut key = [0u8; 64];
    let mut i: usize = 0;
    while i < 32
        invariant
            i <= 32,
            key@.len() == 64,
            forall|j: int| 0 <= j < i ==> key@[j] == rank@[j],
            forall|j: int| 32 <= j < 64 ==> key@[j] == 0u8,
        decreases 32 - i,
    {
        key[i] = rank[i];
        i = i + 1;
    }
    while i < 64
        invariant
            32 <= i <= 64,
            key@.len() == 64,
            forall|j: int| 0 <= j < 32 ==> key@[j] == rank@[j],
            forall|j: int| 32 <= j < i ==> key@[j] == participant@[j - 32],
        decreases 64 - i,
    {
        key[i] = participant[i - 32];
        i = i + 1;
    }
    assert(key@ =~= rank@ + participant@);
    key
}

/// `SHA-256(participant_domain || le64(index) || wallet || reveal_digest)`.
pub open spec fn spec_participant_commitment_leaf(
    participant_index: u64,
    participant: Seq<u8>,
    reveal_digest: Seq<u8>,
) -> Seq<u8> {
    spec_sha256(
        spec_giveaway_participant_domain_v3() + spec_u64_to_le_bytes(participant_index)
            + participant + reveal_digest,
    )
}

/// The commitment leaf that binds an eligible participant's index, wallet
/// and reveal digest into the pool commitment.
pub fn compute_participant_commitment_leaf(
    participant_index: u64,
    participant: &Pubkey,
    reveal_digest: [u8; 32],
) -> (leaf: [u8; 32])
    ensures
        leaf@ == spec_participant_commitment_leaf(participant_index, participant@, reveal_digest@),
{
    let mut message = giveaway_participant_domain_v3();
    let index_bytes = u64_to_le_bytes(participant_index);
    append_bytes(&mut message, index_bytes.as_slice());
    append_bytes(&mut message, participant.as_slice());
    append_bytes(&mut message, reveal_digest.as_slice());
    sha256(message.as_slice())
}

/// `SHA-256(threshold_domain || threshold_key || le32(winners_count))`.
pub open spec fn spec_threshold_commitment(threshold_key: Seq<u8>, winners_count: u32) -> Seq<
    u8,
> {
    spec_sha256(
        spec_giveaway_threshold_domain_v2() + threshold_key + spec_u32_to_le_bytes(winners_count),
    )
}

/// Commitment to the winning threshold key and the number of winners.
pub fn compute_threshold_commitment(threshold_key: &[u8; 64], winners_count: u32) -> (commitment:
    [u8; 32])
    ensures
        commitment@ == spec_threshold_commitment(threshold_key@, winners_count),
{
    let mut message = giveaway_threshold_domain_v2();
    append_bytes(&mut message, threshold_key.as_slice());
    let count_bytes = u32_to_le_bytes(winners_count);
    append_bytes(&mut message, count_bytes.as_slice());
    sha256(message.as_slice())
}

/// The pool position drawn in `round`: the first 16 bytes of
/// `SHA-256(draw_domain || seed || le64(round))`, read little-endian, modulo
/// the pool size.
pub open spec fn spec_draw_index(seed: Seq<u8>, round: nat, pool_len: nat) -> int {
    let digest = spec_sha256(
        spec_giveaway_draw_domain_v1() + seed + spec_u64_to_le_bytes(round as u64),
    );
    (spec_u128_from_le_bytes(digest.subrange(0, 16)) as int) % (pool_len as int)
}

/// `count` draws without replacement, starting at `round`.
pub open spec fn spec_draw_rounds(seed: Seq<u8>, pool: Seq<[u8; 32]>, round: nat, count: nat) -> Seq<
    [u8; 32],
>
    decreases count,
{
    if count == 0 || pool.len() == 0 {
        Seq::empty()
    } else {
        let idx = spec_draw_index(seed, round, pool.len());
        seq![pool[idx]] + spec_draw_rounds(seed, pool.remove(idx), round + 1, (count - 1) as nat)
    }
}

/// The winners of the legacy draw: `min(number_of_winners, pool)` draws
/// without replacement.
pub open spec fn spec_select_winners(seed: Seq<u8>, pool: Seq<[u8; 32]>, number_of_winners: u32) -> Seq<
    [u8; 32],
> {
    let target = if (number_of_winners as int) < pool.len() {
        number_of_winners as nat
    } else {
        pool.len()
    };
    spec_draw_rounds(seed, pool, 0, target)
}

/// Selects winners without replacement from a wallet-sorted eligible pool.
pub fn select_winners(
    seed: &[u8; 32],
    eligible_participants_sorted: &[Pubkey],
    number_of_winners: u32,
) -> (winners: Vec<Pubkey>)
    ensures
        winners@ == spec_select_winners(seed@, eligible_participants_sorted@, number_of_winners),
{
    if eligible_participants_sorted.len() == 0 || number_of_winners == 0 {
        return Vec::new();
    }
    let mut pool: Vec<Pubkey> = vstd::slice::slice_to_vec(eligible_participants_sorted);
    let mut winners: Vec<Pubkey> = Vec::new();
    let target: usize = if (number_of_winners as usize) < pool.len() {
        number_of_winners as usize
    } else {
        pool.len()
    };
    let ghost total = spec_draw_rounds(seed@, eligible_participants_sorted@, 0, target as nat);
    let mut round: usize = 0;
    while round < target
        invariant
            round <= target,
            target <= eligible_participants_sorted@.len(),
            pool@.len() == eligible_participants_sorted@.len() - round,
            winners@ + spec_draw_rounds(seed@, pool@, round as nat, (target - round) as nat)
                == total,
        decreases target - round,
    {
        let mut message = giveaway_draw_domain_v1();
        append_bytes(&mut message, seed.as_slice());
        let round_bytes = u64_to_le_bytes(round as u64);
        append_bytes(&mut message, round_bytes.as_slice());
        let digest = sha256(message.as_slice());
        let first_16 = vstd::slice::slice_subrange(digest.as_slice(), 0, 16);
        let value = u128_from_le_bytes(first_16);
        let selected_idx = (value % (pool.len() as u128)) as usize;
        let ghost old_pool = pool@;
        let ghost old_winners = winners@;
        let chosen = pool.remove(selected_idx);
        winners.push(chosen);
        assert(old_winners.push(chosen) + spec_draw_rounds(
            seed@,
            pool@,
            (round + 1) as nat,
            (target - round - 1) as nat,
        ) =~= old_winners + spec_draw_rounds(seed@, old_pool, round as nat, (target - round) as nat));
        round = round + 1;
    }
    assert(winners@ + Seq::<Pubkey>::empty() =~= winners@);
    winners
}

/// Winners are drawn without replacement: from a pool without duplicates the
/// draw yields `min(number_of_winners, pool)` distinct members of the pool.
pub proof fn lemma_select_winners_without_replacement(
    seed: Seq<u8>,
    pool: Seq<[u8; 32]>,
    number_of_winners: u32,
)
    requires
        pool.no_duplicates(),
    ensures
        spec_select_winners(seed, pool, number_of_winners).no_duplicates(),
        spec_select_winners(seed, pool, number_of_winners).len() == if (number_of_winners as int)
            < pool.len() {
            number_of_winners as int
        } else {
            pool.len() as int
        },
        forall|i: int|
            0 <= i < spec_select_winners(seed, pool, number_of_winners).len() ==> pool.contains(
                #[trigger] spec_select_winners(seed, pool, number_of_winners)[i],
            ),
{
    let target = if (number_of_winners as int) < pool.len() {
        number_of_winners as nat
    } else {
        pool.len()
    };
    lemma_draw_rounds_distinct(seed, pool, 0, target);
}

proof fn lemma_draw_rounds_distinct(seed: Seq<u8>, pool: Seq<[u8; 32]>, round: nat, count: nat)
    requires
        pool.no_duplicates(),
        count <= pool.len(),
    ensures
        spec_draw_rounds(seed, pool, round, count).no_duplicates(),
        spec_draw_rounds(seed, pool, round, count).len() == count,
        forall|i: int|
            0 <= i < spec_draw_rounds(seed, pool, round, count).len() ==> pool.contains(
                #[trigger] spec_draw_rounds(seed, pool, round, count)[i],
            ),
    decreases count,
{
    if count == 0 || pool.len() == 0 {
    } else {
        let idx = spec_draw_index(seed, round, pool.len());
        let rest_pool = pool.remove(idx);
        assert(0 <= idx < pool.len());
        assert forall|a: int, b: int| 0 <= a < b < rest_pool.len() implies rest_pool[a]
            != rest_pool[b] by {
            let pa = if a < idx { a } else { a + 1 };
            let pb = if b < idx { b } else { b + 1 };
            assert(rest_pool[a] == pool[pa]);
            assert(rest_pool[b] == pool[pb]);
        }
        lemma_draw_rounds_distinct(seed, rest_pool, round + 1, (count - 1) as nat);
        let rest = spec_draw_rounds(seed, rest_pool, round + 1, (count - 1) as nat);
        let all = spec_draw_rounds(seed, pool, round, count);
        assert(all == seq![pool[idx]] + rest);
        assert forall|i: int| 0 <= i < rest.len() implies #[trigger] rest[i] != pool[idx] by {
            assert(rest_pool.contains(rest[i]));
            let j = choose|j: int| 0 <= j < rest_pool.len() && rest_pool[j] == rest[i];
            let pj = if j < idx { j } else { j + 1 };
            assert(rest_pool[j] == pool[pj]);
        }
        assert forall|i: int| 0 <= i < all.len() implies pool.contains(#[trigger] all[i]) by {
            if i == 0 {
                assert(all[0] == pool[idx]);
            } else {
                assert(all[i] == rest[i - 1]);
                assert(rest_pool.contains(rest[i - 1]));
                let j = choose|j: int| 0 <= j < rest_pool.len() && rest_pool[j] == rest[i - 1];
                let pj = if j < idx { j } else { j + 1 };
                assert(rest_pool[j] == pool[pj]);
            }
        }
        assert forall|a: int, b: int| 0 <= a < b < all.len() implies all[a] != all[b] by {
            if a == 0 {
                assert(all[b] == rest[b - 1]);
            } else {
                assert(all[a] == rest[a - 1]);
                assert(all[b] == rest[b - 1]);
            }
        }
    }
}

/// One winner of an indexed payout tree.
#[derive(Clone, Copy, Debug, PartialEq, Eq)]
pub struct WinnerEntry {
    pub index: u32,
    pub recipient: Pubkey,
    pub amount: u64,
}

/// The 44-byte winner leaf: `le32(index) || recipient || le64(amount)`.
pub open spec fn spec_winner_leaf(index: u32, winner: Seq<u8>, amount: u64) -> Seq<u8> {
    spec_u32_to_le_bytes(index) + winner + spec_u64_to_le_bytes(amount)
}

/// Creates the indexed merkle leaf of a winner.
pub fn create_winner_leaf(index: u32, winner: &Pubkey, amount: u64) -> (leaf: Vec<u8>)
    ensures
        leaf@ == spec_winner_leaf(index, winner@, amount),
{
    let mut leaf = u32_to_le_bytes(index);
    append_bytes(&mut leaf, winner.as_slice());
    let amount_bytes = u64_to_le_bytes(amount);
    append_bytes(&mut leaf, amount_bytes.as_slice());
    leaf
}

/// The hashed leaf of a winner entry.
pub open spec fn spec_entry_hash(entry: WinnerEntry) -> Seq<u8> {
    spec_sha256(spec_winner_leaf(entry.index, entry.recipient@, entry.amount))
}

/// The hashed leaves of a winner list, in order.
pub open spec fn spec_leaf_hashes(winners: Seq<WinnerEntry>) -> Seq<Seq<u8>> {
    Seq::new(winners.len(), |i: int| spec_entry_hash(winners[i]))
}

/// The hash of the pair at `2 * i`; an odd last node is paired with itself.
pub open spec fn spec_parent_hash(level: Seq<Seq<u8>>, i: int) -> Seq<u8> {
    if 2 * i + 1 < level.len() {
        spec_sha256(level[2 * i] + level[2 * i + 1])
    } else {
        spec_sha256(level[2 * i] + level[2 * i])
    }
}

/// The next level up of a merkle tree.
pub open spec fn spec_parent_level(level: Seq<Seq<u8>>) -> Seq<Seq<u8>> {
    Seq::new(((level.len() + 1) / 2) as nat, |i: int| spec_parent_hash(level, i))
}

/// The root of the tree over a non-empty level.
pub open spec fn spec_merkle_root(level: Seq<Seq<u8>>) -> Seq<u8>
    decreases level.len(),
{
    if level.len() <= 1 {
        level[0]
    } else {
        spec_merkle_root(spec_parent_level(level))
    }
}

fn hash_pair(left: &[u8; 32], right: &[u8; 32]) -> (digest: [u8; 32])
    ensures
        digest@ == spec_sha256(left@ + right@),
{
    let mut message: Vec<u8> = Vec::new();
    append_bytes(&mut message, left.as_slice());
    append_bytes(&mut message, right.as_slice());
    sha256(message.as_slice())
}

/// Builds the indexed merkle tree of the winners and returns its root.
pub fn build_merkle_tree(winners: &[WinnerEntry]) -> (root: Result<[u8; 32], GiveawayError>)
    ensures
        winners@.len() == 0 ==> root == Err::<[u8; 32], _>(GiveawayError::NoEligibleParticipants),
        winners@.len() > 0 ==> (root matches Ok(r) && r@ == spec_merkle_root(
            spec_leaf_hashes(winners@),
        )),
{
    if winners.len() == 0 {
        return Err(GiveawayError::NoEligibleParticipants);
    }
    let mut leaves: Vec<[u8; 32]> = Vec::new();
    let mut k: usize = 0;
    while k < winners.len()
        invariant
            k <= winners@.len(),
            leaves@.len() == k,
            forall|j: int| 0 <= j < k ==> #[trigger] leaves@[j]@ == spec_entry_hash(winners@[j]),
        decreases winners@.len() - k,
    {
        let entry = winners[k];
        let leaf = create_winner_leaf(entry.index, &entry.recipient, entry.amount);
        leaves.push(sha256(leaf.as_slice()));
        k = k + 1;
    }
    assert(Seq::new(leaves@.len(), |j: int| leaves@[j]@) =~= spec_leaf_hashes(winners@));
    while leaves.len() > 1
        invariant
            leaves@.len() >= 1,
            spec_merkle_root(Seq::new(leaves@.len(), |j: int| leaves@[j]@)) == spec_merkle_root(
                spec_leaf_hashes(winners@),
            ),
        decreases leaves@.len(),
    {
        let ghost level = Seq::new(leaves@.len(), |j: int| leaves@[j]@);
        let mut next_level: Vec<[u8; 32]> = Vec::new();
        let n: usize = leaves.len();
        let pairs: usize = n / 2 + n % 2;
        let mut p: usize = 0;
        while p < pairs
            invariant
                n == leaves@.len(),
                pairs == (leaves@.len() + 1) / 2,
                p <= pairs,
                level == Seq::new(leaves@.len(), |j: int| leaves@[j]@),
                next_level@.len() == p,
                forall|j: int|
                    0 <= j < next_level@.len() ==> #[trigger] next_level@[j]@ == spec_parent_hash(
                        level,
                        j,
                    ),
            decreases pairs - p,
        {
            assert(2 * p < leaves@.len()) by (nonlinear_arith)
                requires
                    p < pairs,
                    pairs == (leaves@.len() + 1) / 2,
            ;
            let i = 2 * p;
            let digest = if i + 1 < leaves.len() {
                hash_pair(&leaves[i], &leaves[i + 1])
            } else {
                hash_pair(&leaves[i], &leaves[i])
            };
            next_level.push(digest);
            p = p + 1;
        }
        assert(Seq::new(next_level@.len(), |j: int| next_level@[j]@) =~= spec_parent_level(level));
        leaves = next_level;
    }
    Ok(leaves[0])
}

/// The root reached by folding `proof` into `current` along `path_index`.
pub open spec fn spec_merkle_path(current: Seq<u8>, path_index: int, proof: Seq<Seq<u8>>) -> Seq<u8>
    decreases proof.len(),
{
    if proof.len() == 0 {
        current
    } else {
        let next = if path_index % 2 == 0 {
            spec_sha256(current + proof[0])
        } else {
            spec_sha256(proof[0] + current)
        };
        spec_merkle_path(next, path_index / 2, proof.drop_first())
    }
}

/// The byte view of each proof node.
pub open spec fn spec_proof_nodes(proof: Seq<Vec<u8>>) -> Seq<Seq<u8>> {
    Seq::new(proof.len(), |i: int| proof[i]@)
}

/// Whether every proof node is a 32-byte hash.
pub open spec fn spec_proof_well_sized(proof: Seq<Vec<u8>>) -> bool {
    forall|i: int| 0 <= i < proof.len() ==> (#[trigger] proof[i])@.len() == 32
}

/// Verifies an indexed merkle proof.
pub fn verify_merkle_proof(
    index: u32,
    winner: &Pubkey,
    amount: u64,
    proof: &[Vec<u8>],
    root: &[u8; 32],
) -> (valid: bool)
    ensures
        valid == (spec_proof_well_sized(proof@) && spec_merkle_path(
            spec_sha256(spec_winner_leaf(index, winner@, amount)),
            index as int,
            spec_proof_nodes(proof@),
        ) == root@),
{
    let leaf = create_winner_leaf(index, winner, amount);
    let mut current_hash = sha256(leaf.as_slice());
    let mut path_index = index;
    let ghost nodes = spec_proof_nodes(proof@);
    let ghost target = spec_merkle_path(
        spec_sha256(spec_winner_leaf(index, winner@, amount)),
        index as int,
        nodes,
    );
    assert(nodes.subrange(0, nodes.len() as int) =~= nodes);
    let mut k: usize = 0;
    while k < proof.len()
        invariant
            k <= proof@.len(),
            nodes == spec_proof_nodes(proof@),
            forall|j: int| 0 <= j < k ==> (#[trigger] proof@[j])@.len() == 32,
            spec_merkle_path(current_hash@, path_index as int, nodes.subrange(k as int, nodes.len() as int))
                == target,
        decreases proof@.len() - k,
    {
        let sibling = &proof[k];
        if sibling.len() != 32 {
            return false;
        }
        let sibling_hash = to_array32(sibling.as_slice());
        let ghost rest = nodes.subrange(k as int, nodes.len() as int);
        assert(rest[0] == sibling_hash@);
        assert(rest.drop_first() =~= nodes.subrange(k + 1, nodes.len() as int));
        if path_index % 2 == 0 {
            current_hash = hash_pair(&current_hash, &sibling_hash);
        } else {
            current_hash = hash_pair(&sibling_hash, &current_hash);
        }
        path_index = path_index / 2;
        k = k + 1;
    }
    pubkey_eq(&current_hash, root)
}

/// A single-winner tree's root verifies with an empty proof at the winner's
/// own index.
pub proof fn lemma_single_winner_root_verifies(entry: WinnerEntry)
    ensures
        spec_merkle_path(spec_entry_hash(entry), entry.index as int, Seq::empty())
            == spec_merkle_root(spec_leaf_hashes(seq![entry])),
        spec_proof_well_sized(Seq::<Vec<u8>>::empty()),
{
    assert(spec_leaf_hashes(seq![entry]) =~= seq![spec_entry_hash(entry)]);
}

/// The sibling hashes from node `i` of `level` up to the root: at each
/// level the other node of its pair, a lone last node being its own sibling.
pub open spec fn spec_sibling_path(level: Seq<Seq<u8>>, i: int) -> Seq<Seq<u8>>
    decreases level.len(),
{
    if level.len() <= 1 {
        Seq::empty()
    } else {
        let sibling = if i % 2 == 0 {
            if i + 1 < level.len() {
                level[i + 1]
            } else {
                level[i]
            }
        } else {
            level[i - 1]
        };
        seq![sibling] + spec_sibling_path(spec_parent_level(level), i / 2)
    }
}

/// Folding a node's sibling path into it, along its own position, gives the
/// root of the tree.
pub proof fn lemma_sibling_path_reaches_root(level: Seq<Seq<u8>>, i: int)
    requires
        0 <= i < level.len(),
    ensures
        spec_merkle_path(level[i], i, spec_sibling_path(level, i)) == spec_merkle_root(level),
    decreases level.len(),
{
    if level.len() > 1 {
        let parent = spec_parent_level(level);
        let path = spec_sibling_path(level, i);
        let rest = spec_sibling_path(parent, i / 2);
        assert(path.drop_first() =~= rest);
        assert(parent[i / 2] == spec_parent_hash(level, i / 2));
        lemma_sibling_path_reaches_root(parent, i / 2);
    }
}

/// Every winner of a built tree verifies against its root: when the entries
/// are indexed by their position, the hash path of entry `i` folded with its
/// sibling path along index `i` yields the root `build_merkle_tree` returns.
pub proof fn lemma_built_tree_paths_verify(winners: Seq<WinnerEntry>, i: int)
    requires
        0 <= i < winners.len(),
        winners[i].index == i,
    ensures
        spec_merkle_path(
            spec_entry_hash(winners[i]),
            winners[i].index as int,
            spec_sibling_path(spec_leaf_hashes(winners), i),
        ) == spec_merkle_root(spec_leaf_hashes(winners)),
{
    lemma_sibling_path_reaches_root(spec_leaf_hashes(winners), i);
}

/// `idx` is the first position of the reveal separator in `plaintext`.
pub open spec fn is_first_separator(plaintext: Seq<u8>, idx: int) -> bool {
    &&& 0 <= idx < plaintext.len()
    &&& plaintext[idx] == REVEAL_SEPARATOR
    &&& forall|j: int| 0 <= j < idx ==> plaintext[j] != REVEAL_SEPARATOR
}

/// Parsing undoes building: when the lucky words hold no separator byte,
/// the first separator of `lucky_words || 0x1f || salt` sits right after
/// them, so the parts read back are the lucky words and the salt.
pub proof fn lemma_reveal_plaintext_roundtrip(lucky_words: Seq<u8>, salt: Seq<u8>)
    requires
        forall|j: int| 0 <= j < lucky_words.len() ==> lucky_words[j] != REVEAL_SEPARATOR,
    ensures
        is_first_separator(spec_reveal_plaintext(lucky_words, salt), lucky_words.len() as int),
        spec_reveal_plaintext(lucky_words, salt).subrange(0, lucky_words.len() as int)
            == lucky_words,
        spec_reveal_plaintext(lucky_words, salt).subrange(
            lucky_words.len() + 1int,
            spec_reveal_plaintext(lucky_words, salt).len() as int,
        ) == salt,
{
    let p = spec_reveal_plaintext(lucky_words, salt);
    assert(p.subrange(0, lucky_words.len() as int) =~= lucky_words);
    assert(p.subrange(lucky_words.len() + 1int, p.len() as int) =~= salt);
    assert forall|j: int| 0 <= j < lucky_words.len() implies p[j] != REVEAL_SEPARATOR by {
        assert(p[j] == lucky_words[j]);
    }
}

/// Parses reveal plaintext at its first separator into lucky words and salt.
pub fn parse_reveal_data(plaintext: &[u8]) -> (parsed: Result<(String, Vec<u8>), GiveawayError>)
    ensures
        (forall|j: int| 0 <= j < plaintext@.len() ==> plaintext@[j] != REVEAL_SEPARATOR) ==> parsed
            == Err::<(String, Vec<u8>), _>(GiveawayError::InvalidReveal),
        forall|idx: int| #[trigger]
            is_first_separator(plaintext@, idx) ==> {
                let words = plaintext@.subrange(0, idx);
                let salt = plaintext@.subrange(idx + 1, plaintext@.len() as int);
                if !valid_utf8(words) {
                    parsed == Err::<(String, Vec<u8>), _>(GiveawayError::InvalidReveal)
                } else if !reveal_parts_fit(words, salt) {
                    parsed == Err::<(String, Vec<u8>), _>(GiveawayError::TextTooLong)
                } else {
                    parsed matches Ok((w, s)) && w@ == decode_utf8(words) && s@ == salt
                }
            },
{
    let mut idx: usize = 0;
    while idx < plaintext.len()
        invariant
            idx <= plaintext@.len(),
            forall|j: int| 0 <= j < idx ==> plaintext@[j] != REVEAL_SEPARATOR,
        ensures
            idx <= plaintext@.len(),
            forall|j: int| 0 <= j < idx ==> plaintext@[j] != REVEAL_SEPARATOR,
            idx < plaintext@.len() ==> plaintext@[idx as int] == REVEAL_SEPARATOR,
        decreases plaintext@.len() - idx,
    {
        if plaintext[idx] == REVEAL_SEPARATOR {
            break;
        }
        idx = idx + 1;
    }
    if idx == plaintext.len() {
        return Err(GiveawayError::InvalidReveal);
    }
    assert(is_first_separator(plaintext@, idx as int));
    assert forall|other: int| #[trigger] is_first_separator(plaintext@, other) implies other
        == idx by {
        if other < idx {
        } else if other > idx {
        }
    }
    let words_bytes = vstd::slice::slice_subrange(plaintext, 0, idx);
    let lucky_words = match string_from_utf8(words_bytes) {
        Some(text) => text,
        None => {
            return Err(GiveawayError::InvalidReveal);
        },
    };
    let salt = vstd::slice::slice_to_vec(
        vstd::slice::slice_subrange(plaintext, idx + 1, plaintext.len()),
    );
    proof {
        decode_utf8_encode_utf8(words_bytes@);
    }
    let checked = build_reveal_plaintext(lucky_words.as_str(), salt.as_slice());
    if checked.is_err() {
        return Err(GiveawayError::TextTooLong);
    }
    Ok((lucky_words, salt))
}

proof fn lemma_xor_byte_laws(x: u8, y: u8, z: u8)
    ensures
        (x ^ y) ^ z == x ^ (y ^ z),
        x ^ y == y ^ x,
        x ^ 0u8 == x,
{
    assert((x ^ y) ^ z == x ^ (y ^ z)) by (bit_vector);
    assert(x ^ y == y ^ x) by (bit_vector);
    assert(x ^ 0u8 == x) by (bit_vector);
}

proof fn lemma_xor32_assoc_comm(x: Seq<u8>, y: Seq<u8>, z: Seq<u8>)
    requires
        x.len() == 32,
        y.len() == 32,
        z.len() == 32,
    ensures
        xor32(xor32(x, y), z) == xor32(x, xor32(y, z)),
        xor32(x, y) == xor32(y, x),
        xor32(x, zero32()) == x,
{
    assert forall|i: int| 0 <= i < 32 implies #[trigger] xor32(xor32(x, y), z)[i] == xor32(
        x,
        xor32(y, z),
    )[i] by {
        lemma_xor_byte_laws(x[i], y[i], z[i]);
    }
    assert forall|i: int| 0 <= i < 32 implies #[trigger] xor32(x, y)[i] == xor32(y, x)[i] by {
        lemma_xor_byte_laws(x[i], y[i], z[i]);
    }
    assert forall|i: int| 0 <= i < 32 implies #[trigger] xor32(x, zero32())[i] == x[i] by {
        lemma_xor_byte_laws(x[i], y[i], z[i]);
    }
    assert(xor32(xor32(x, y), z) =~= xor32(x, xor32(y, z)));
    assert(xor32(x, y) =~= xor32(y, x));
    assert(xor32(x, zero32()) =~= x);
}

/// Thirty-two zero bytes.
pub open spec fn zero32() -> Seq<u8> {
    Seq::new(32, |i: int| 0u8)
}

proof fn lemma_xor_all_len(initial: Seq<u8>, digests: Seq<[u8; 32]>)
    requires
        initial.len() == 32,
    ensures
        spec_xor_all(initial, digests).len() == 32,
    decreases digests.len(),
{
    if digests.len() > 0 {
        lemma_xor_all_len(initial, digests.drop_last());
    }
}

proof fn lemma_xor_all_append(initial: Seq<u8>, a: Seq<[u8; 32]>, b: Seq<[u8; 32]>)
    ensures
        spec_xor_all(initial, a + b) == spec_xor_all(spec_xor_all(initial, a), b),
    decreases b.len(),
{
    if b.len() == 0 {
        assert(a + b =~= a);
    } else {
        assert((a + b).drop_last() =~= a + b.drop_last());
        lemma_xor_all_append(initial, a, b.drop_last());
    }
}

proof fn lemma_xor_all_factor(x: Seq<u8>, digests: Seq<[u8; 32]>)
    requires
        x.len() == 32,
    ensures
        spec_xor_all(x, digests) == xor32(x, spec_xor_all(zero32(), digests)),
    decreases digests.len(),
{
    if digests.len() == 0 {
        lemma_xor32_assoc_comm(x, x, x);
    } else {
        lemma_xor_all_factor(x, digests.drop_last());
        lemma_xor_all_len(zero32(), digests.drop_last());
        lemma_xor32_assoc_comm(x, spec_xor_all(zero32(), digests.drop_last()), digests.last()@);
    }
}

/// The reveal aggregate does not depend on the order of the batches folded
/// into it: folding `a` then `b` gives what folding `b` then `a` gives.
pub proof fn lemma_xor_aggregate_order_independent(
    initial: Seq<u8>,
    a: Seq<[u8; 32]>,
    b: Seq<[u8; 32]>,
)
    requires
        initial.len() == 32,
    ensures
        spec_xor_all(initial, a + b) == spec_xor_all(initial, b + a),
{
    lemma_xor_all_append(initial, a, b);
    lemma_xor_all_append(initial, b, a);
    lemma_xor_all_len(initial, a);
    lemma_xor_all_len(initial, b);
    lemma_xor_all_len(zero32(), a);
    lemma_xor_all_len(zero32(), b);
    lemma_xor_all_factor(initial, a);
    lemma_xor_all_factor(initial, b);
    let za = spec_xor_all(zero32(), a);
    let zb = spec_xor_all(zero32(), b);
    lemma_xor_all_factor(spec_xor_all(initial, a), b);
    lemma_xor_all_factor(spec_xor_all(initial, b), a);
    lemma_xor32_assoc_comm(initial, za, zb);
    lemma_xor32_assoc_comm(initial, zb, za);
    lemma_xor32_assoc_comm(za, zb, za);
}

} // verus!
