//! Protocol constants: size limits, window bounds, fee defaults, hashing
//! domains and PDA seeds.
use vstd::prelude::*;

verus! {

/// Maximum length for participant proof text (UTF-8 bytes).
pub const MAX_PROOF_TEXT_LEN: usize = 256;

/// Maximum length for lucky words in a proof-of-chance reveal (UTF-8 bytes).
pub const MAX_LUCKY_WORDS_LEN: usize = 32;

/// Maximum length for the salt in a proof-of-chance reveal (bytes).
pub const MAX_SALT_LEN: usize = 16;

/// Maximum length of reveal plaintext (`lucky_words || 0x1f || salt`).
pub const MAX_REVEAL_PLAINTEXT_LEN: usize = MAX_LUCKY_WORDS_LEN + 1 + MAX_SALT_LEN;

/// Separator between lucky words and salt in reveal plaintext.
pub const REVEAL_SEPARATOR: u8 = 0x1f;

/// Maximum service fee in basis points (99.99%).
pub const MAX_SERVICE_FEE_BPS: u16 = 9999;

/// Minimum number of winners allowed.
pub const MIN_WINNERS: u32 = 1;

/// Maximum number of winners allowed per giveaway.
pub const MAX_WINNERS: u32 = 1000;

/// Maximum number of entries a giveaway accepts.
pub const MAX_PARTICIPANTS: u64 = 4096;

/// Minimum amount a finalized winner must receive.
pub const MIN_WINNER_PAYOUT_LAMPORTS: u64 = 1;

/// Minimum active duration in seconds (1 hour).
pub const MIN_ACTIVE_DURATION_SECS: u32 = 3600;

/// Maximum active duration in seconds (30 days).
pub const MAX_ACTIVE_DURATION_SECS: u32 = 30 * 24 * 3600;

/// Minimum upload/attestation duration in seconds (1 hour).
pub const MIN_UPLOAD_DURATION_SECS: u32 = 3600;

/// Maximum upload/attestation duration in seconds (7 days).
pub const MAX_UPLOAD_DURATION_SECS: u32 = 7 * 24 * 3600;

/// Default active duration in seconds (24 hours).
pub const DEFAULT_ACTIVE_DURATION_SECS: u32 = 24 * 3600;

/// Default upload/attestation duration in seconds (24 hours).
pub const DEFAULT_UPLOAD_DURATION_SECS: u32 = 24 * 3600;

/// Remediation window after the upload deadline while attested reveals are
/// still missing.
pub const DEFAULT_REMEDIATION_WINDOW_SECS: i64 = 30 * 60;

/// Default service fee in basis points (5%).
pub const DEFAULT_SERVICE_FEE_BPS: u16 = 500;

/// Minimum lamports kept for rent exemption.
pub const MIN_RENT_EXEMPTION: u64 = 1_000_000;

/// Maximum participants per reveal upload batch.
pub const MAX_REVEALS_PER_BATCH: usize = 50;

/// Maximum winners per settlement batch.
pub const MAX_WINNERS_PER_BATCH: usize = 50;

/// Rule version of the first, single-pass draw.
pub const GIVEAWAY_RULE_VERSION_V1: &'static str = "giveaway-poc-v1";

/// Rule version reported by the radix-threshold finalization.
pub const GIVEAWAY_RULE_VERSION_V4: &'static str = "giveaway-poc-v4";

/// Disqualification reason: required tasks not completed.
pub const INCOMPLETE_TASKS: u8 = 1;

/// Disqualification reason: invalid or fake proof.
pub const INVALID_PROOF: u8 = 2;

/// Disqualification reason: giveaway terms violated.
pub const TERMS_VIOLATION: u8 = 3;

/// Disqualification reason: duplicate or spam entry.
pub const DUPLICATE_ENTRY: u8 = 4;

/// Disqualification reason: other (manual review).
pub const OTHER: u8 = 255;

/// Domain prefix of the provider receipt message. (`b"GIVEAWAY_ATTEST_V1"`)
pub open spec fn spec_giveaway_attestation_domain_v1() -> Seq<u8> {
    seq![71u8, 73u8, 86u8, 69u8, 65u8, 87u8, 65u8, 89u8, 95u8, 65u8, 84u8, 84u8, 69u8, 83u8, 84u8, 95u8, 86u8, 49u8]
}

/// Domain prefix of the provider receipt message. (`b"GIVEAWAY_ATTEST_V1"`)
pub fn giveaway_attestation_domain_v1() -> (bytes: Vec<u8>)
    ensures
        bytes@ == spec_giveaway_attestation_domain_v1(),
{
    vec![71, 73, 86, 69, 65, 87, 65, 89, 95, 65, 84, 84, 69, 83, 84, 95, 86, 49]
}

/// Domain prefix of a reveal digest. (`b"GIVEAWAY_REVEAL_V1"`)
pub open spec fn spec_giveaway_reveal_domain_v1() -> Seq<u8> {
    seq![71u8, 73u8, 86u8, 69u8, 65u8, 87u8, 65u8, 89u8, 95u8, 82u8, 69u8, 86u8, 69u8, 65u8, 76u8, 95u8, 86u8, 49u8]
}

/// Domain prefix of a reveal digest. (`b"GIVEAWAY_REVEAL_V1"`)
pub fn giveaway_reveal_domain_v1() -> (bytes: Vec<u8>)
    ensures
        bytes@ == spec_giveaway_reveal_domain_v1(),
{
    vec![71, 73, 86, 69, 65, 87, 65, 89, 95, 82, 69, 86, 69, 65, 76, 95, 86, 49]
}

/// Domain prefix of the legacy winner-draw seed. (`b"GIVEAWAY_SEED_V1"`)
pub open spec fn spec_giveaway_seed_domain_v1() -> Seq<u8> {
    seq![71u8, 73u8, 86u8, 69u8, 65u8, 87u8, 65u8, 89u8, 95u8, 83u8, 69u8, 69u8, 68u8, 95u8, 86u8, 49u8]
}

/// Domain prefix of the legacy winner-draw seed. (`b"GIVEAWAY_SEED_V1"`)
pub fn giveaway_seed_domain_v1() -> (bytes: Vec<u8>)
    ensures
        bytes@ == spec_giveaway_seed_domain_v1(),
{
    vec![71, 73, 86, 69, 65, 87, 65, 89, 95, 83, 69, 69, 68, 95, 86, 49]
}

/// Domain prefix of one legacy draw round. (`b"GIVEAWAY_DRAW_V1"`)
pub open spec fn spec_giveaway_draw_domain_v1() -> Seq<u8> {
    seq![71u8, 73u8, 86u8, 69u8, 65u8, 87u8, 65u8, 89u8, 95u8, 68u8, 82u8, 65u8, 87u8, 95u8, 86u8, 49u8]
}

/// Domain prefix of one legacy draw round. (`b"GIVEAWAY_DRAW_V1"`)
pub fn giveaway_draw_domain_v1() -> (bytes: Vec<u8>)
    ensures
        bytes@ == spec_giveaway_draw_domain_v1(),
{
    vec![71, 73, 86, 69, 65, 87, 65, 89, 95, 68, 82, 65, 87, 95, 86, 49]
}

/// Domain prefix of the chunked finalization seed (v2). (`b"GIVEAWAY_FINALIZATION_SEED_V2"`)
pub open spec fn spec_giveaway_finalization_seed_domain_v2() -> Seq<u8> {
    seq![71u8, 73u8, 86u8, 69u8, 65u8, 87u8, 65u8, 89u8, 95u8, 70u8, 73u8, 78u8, 65u8, 76u8, 73u8, 90u8, 65u8, 84u8, 73u8, 79u8, 78u8, 95u8, 83u8, 69u8, 69u8, 68u8, 95u8, 86u8, 50u8]
}

/// Domain prefix of the chunked finalization seed (v2). (`b"GIVEAWAY_FINALIZATION_SEED_V2"`)
pub fn giveaway_finalization_seed_domain_v2() -> (bytes: Vec<u8>)
    ensures
        bytes@ == spec_giveaway_finalization_seed_domain_v2(),
{
    vec![71, 73, 86, 69, 65, 87, 65, 89, 95, 70, 73, 78, 65, 76, 73, 90, 65, 84, 73, 79, 78, 95, 83, 69, 69, 68, 95, 86, 50]
}

/// Domain prefix of the participant-bound finalization seed (v3). (`b"GIVEAWAY_FINALIZATION_SEED_V3"`)
pub open spec fn spec_giveaway_finalization_seed_domain_v3() -> Seq<u8> {
    seq![71u8, 73u8, 86u8, 69u8, 65u8, 87u8, 65u8, 89u8, 95u8, 70u8, 73u8, 78u8, 65u8, 76u8, 73u8, 90u8, 65u8, 84u8, 73u8, 79u8, 78u8, 95u8, 83u8, 69u8, 69u8, 68u8, 95u8, 86u8, 51u8]
}

/// Domain prefix of the participant-bound finalization seed (v3). (`b"GIVEAWAY_FINALIZATION_SEED_V3"`)
pub fn giveaway_finalization_seed_domain_v3() -> (bytes: Vec<u8>)
    ensures
        bytes@ == spec_giveaway_finalization_seed_domain_v3(),
{
    vec![71, 73, 86, 69, 65, 87, 65, 89, 95, 70, 73, 78, 65, 76, 73, 90, 65, 84, 73, 79, 78, 95, 83, 69, 69, 68, 95, 86, 51]
}

/// Domain prefix of a candidate ranking digest. (`b"GIVEAWAY_RANK_V2"`)
pub open spec fn spec_giveaway_rank_domain_v2() -> Seq<u8> {
    seq![71u8, 73u8, 86u8, 69u8, 65u8, 87u8, 65u8, 89u8, 95u8, 82u8, 65u8, 78u8, 75u8, 95u8, 86u8, 50u8]
}

/// Domain prefix of a candidate ranking digest. (`b"GIVEAWAY_RANK_V2"`)
pub fn giveaway_rank_domain_v2() -> (bytes: Vec<u8>)
    ensures
        bytes@ == spec_giveaway_rank_domain_v2(),
{
    vec![71, 73, 86, 69, 65, 87, 65, 89, 95, 82, 65, 78, 75, 95, 86, 50]
}

/// Domain prefix of the running eligible-pool commitment. (`b"GIVEAWAY_POOL_V3"`)
pub open spec fn spec_giveaway_pool_domain_v3() -> Seq<u8> {
    seq![71u8, 73u8, 86u8, 69u8, 65u8, 87u8, 65u8, 89u8, 95u8, 80u8, 79u8, 79u8, 76u8, 95u8, 86u8, 51u8]
}

/// Domain prefix of the running eligible-pool commitment. (`b"GIVEAWAY_POOL_V3"`)
pub fn giveaway_pool_domain_v3() -> (bytes: Vec<u8>)
    ensures
        bytes@ == spec_giveaway_pool_domain_v3(),
{
    vec![71, 73, 86, 69, 65, 87, 65, 89, 95, 80, 79, 79, 76, 95, 86, 51]
}

/// Domain prefix of a participant commitment leaf. (`b"GIVEAWAY_PARTICIPANT_V3"`)
pub open spec fn spec_giveaway_participant_domain_v3() -> Seq<u8> {
    seq![71u8, 73u8, 86u8, 69u8, 65u8, 87u8, 65u8, 89u8, 95u8, 80u8, 65u8, 82u8, 84u8, 73u8, 67u8, 73u8, 80u8, 65u8, 78u8, 84u8, 95u8, 86u8, 51u8]
}

/// Domain prefix of a participant commitment leaf. (`b"GIVEAWAY_PARTICIPANT_V3"`)
pub fn giveaway_participant_domain_v3() -> (bytes: Vec<u8>)
    ensures
        bytes@ == spec_giveaway_participant_domain_v3(),
{
    vec![71, 73, 86, 69, 65, 87, 65, 89, 95, 80, 65, 82, 84, 73, 67, 73, 80, 65, 78, 84, 95, 86, 51]
}

/// Domain prefix of the threshold commitment. (`b"GIVEAWAY_THRESHOLD_V2"`)
pub open spec fn spec_giveaway_threshold_domain_v2() -> Seq<u8> {
    seq![71u8, 73u8, 86u8, 69u8, 65u8, 87u8, 65u8, 89u8, 95u8, 84u8, 72u8, 82u8, 69u8, 83u8, 72u8, 79u8, 76u8, 68u8, 95u8, 86u8, 50u8]
}

/// Domain prefix of the threshold commitment. (`b"GIVEAWAY_THRESHOLD_V2"`)
pub fn giveaway_threshold_domain_v2() -> (bytes: Vec<u8>)
    ensures
        bytes@ == spec_giveaway_threshold_domain_v2(),
{
    vec![71, 73, 86, 69, 65, 87, 65, 89, 95, 84, 72, 82, 69, 83, 72, 79, 76, 68, 95, 86, 50]
}

/// PDA seed of the config account. (`b"config"`)
pub open spec fn spec_config_seed() -> Seq<u8> {
    seq![99u8, 111u8, 110u8, 102u8, 105u8, 103u8]
}

/// PDA seed of the config account. (`b"config"`)
pub fn config_seed() -> (bytes: Vec<u8>)
    ensures
        bytes@ == spec_config_seed(),
{
    vec![99, 111, 110, 102, 105, 103]
}

/// PDA seed of a giveaway account. (`b"giveaway"`)
pub open spec fn spec_giveaway_seed() -> Seq<u8> {
    seq![103u8, 105u8, 118u8, 101u8, 97u8, 119u8, 97u8, 121u8]
}

/// PDA seed of a giveaway account. (`b"giveaway"`)
pub fn giveaway_seed() -> (bytes: Vec<u8>)
    ensures
        bytes@ == spec_giveaway_seed(),
{
    vec![103, 105, 118, 101, 97, 119, 97, 121]
}

/// PDA seed of a participant account. (`b"participant"`)
pub open spec fn spec_participant_seed() -> Seq<u8> {
    seq![112u8, 97u8, 114u8, 116u8, 105u8, 99u8, 105u8, 112u8, 97u8, 110u8, 116u8]
}

/// PDA seed of a participant account. (`b"participant"`)
pub fn participant_seed() -> (bytes: Vec<u8>)
    ensures
        bytes@ == spec_participant_seed(),
{
    vec![112, 97, 114, 116, 105, 99, 105, 112, 97, 110, 116]
}

/// PDA seed of a giveaway vault. (`b"vault"`)
pub open spec fn spec_vault_seed() -> Seq<u8> {
    seq![118u8, 97u8, 117u8, 108u8, 116u8]
}

/// PDA seed of a giveaway vault. (`b"vault"`)
pub fn vault_seed() -> (bytes: Vec<u8>)
    ensures
        bytes@ == spec_vault_seed(),
{
    vec![118, 97, 117, 108, 116]
}

/// PDA seed of the winners ledger. (`b"winners_ledger"`)
pub open spec fn spec_winners_ledger_seed() -> Seq<u8> {
    seq![119u8, 105u8, 110u8, 110u8, 101u8, 114u8, 115u8, 95u8, 108u8, 101u8, 100u8, 103u8, 101u8, 114u8]
}

/// PDA seed of the winners ledger. (`b"winners_ledger"`)
pub fn winners_ledger_seed() -> (bytes: Vec<u8>)
    ensures
        bytes@ == spec_winners_ledger_seed(),
{
    vec![119, 105, 110, 110, 101, 114, 115, 95, 108, 101, 100, 103, 101, 114]
}

/// PDA seed of the finalization ledger. (`b"finalization_root_v2"`)
pub open spec fn spec_finalization_ledger_seed() -> Seq<u8> {
    seq![102u8, 105u8, 110u8, 97u8, 108u8, 105u8, 122u8, 97u8, 116u8, 105u8, 111u8, 110u8, 95u8, 114u8, 111u8, 111u8, 116u8, 95u8, 118u8, 50u8]
}

/// PDA seed of the finalization ledger. (`b"finalization_root_v2"`)
pub fn finalization_ledger_seed() -> (bytes: Vec<u8>)
    ensures
        bytes@ == spec_finalization_ledger_seed(),
{
    vec![102, 105, 110, 97, 108, 105, 122, 97, 116, 105, 111, 110, 95, 114, 111, 111, 116, 95, 118, 50]
}

} // verus!
