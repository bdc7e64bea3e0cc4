//! Addresses: base58 rendering, program-derived address search and UTF-8
//! decoding of user-supplied text.
use vstd::prelude::*;
use vstd::utf8::*;
use crate::bytes::Pubkey;

verus! {

/// The address of the giveaways program,
/// `DUMRJ15A2ivmUNDK6EX7wfRQ1cYw4vw5ewSyT8xSJuRG`.
pub open spec fn spec_program_id() -> Seq<u8> {
    seq![185u8, 78u8, 3u8, 59u8, 102u8, 169u8, 214u8, 174u8, 86u8, 182u8, 178u8, 34u8, 178u8, 221u8, 100u8, 131u8, 172u8, 202u8, 224u8, 172u8, 204u8, 47u8, 149u8, 158u8, 132u8, 118u8, 78u8, 148u8, 89u8, 102u8, 88u8, 39u8]
}

/// The address of the giveaways program.
pub fn program_id() -> (id: Pubkey)
    ensures
        id@ == spec_program_id(),
{
    let id: Pubkey = [185u8, 78, 3, 59, 102, 169, 214, 174, 86, 182, 178, 34, 178, 221, 100, 131, 172, 202, 224, 172, 204, 47, 149, 158, 132, 118, 78, 148, 89, 102, 88, 39];
    assert(id@ =~= spec_program_id());
    id
}

/// The base58 text of an address.
pub uninterp spec fn spec_pubkey_base58(key: Seq<u8>) -> Seq<char>;

/// Calls `Pubkey::to_string` (its `Display`, which is `bs58::encode` of the
/// 32 bytes). Trusted: the text is a function of the key bytes alone, named
/// `spec_pubkey_base58`; the base58 alphabet itself is not stated.
#[verifier::external_body]
pub(crate) fn pubkey_to_string(key: &Pubkey) -> (text: String)
    ensures
        text@ == spec_pubkey_base58(key@),
{
    solana_program::pubkey::Pubkey::new_from_array(*key).to_string()
}

/// The program-derived address and bump seed found for `seeds` under
/// `program_id`, or `None` when the search finds none.
pub uninterp spec fn spec_try_find_program_address(seeds: Seq<Seq<u8>>, program_id: Seq<u8>) -> Option<
    (Seq<u8>, u8),
>;

/// Calls `Pubkey::try_find_program_address`. Trusted: the outcome, an
/// address and bump seed or none (none when the seeds exceed the crate's
/// bounds or no bump seed gives an address off the curve), is a function of
/// the seeds and the program id alone, named `spec_try_find_program_address`.
/// The call does not panic.
#[verifier::external_body]
pub(crate) fn try_find_program_address(seeds: &Vec<Vec<u8>>, program_id: &Pubkey) -> (found: Option<
    (Pubkey, u8),
>)
    ensures
        match found {
            Some(f) => spec_try_find_program_address(seeds.deep_view(), program_id@) == Some(
                (f.0@, f.1),
            ),
            None => spec_try_find_program_address(seeds.deep_view(), program_id@) is None,
        },
{
    let refs: Vec<&[u8]> = seeds.iter().map(|seed| seed.as_slice()).collect();
    let program = solana_program::pubkey::Pubkey::new_from_array(*program_id);
    match solana_program::pubkey::Pubkey::try_find_program_address(&refs, &program) {
        Some((address, bump)) => Some((address.to_bytes(), bump)),
        None => None,
    }
}

/// Calls `core::str::from_utf8` and copies the text. Trusted: it succeeds
/// exactly on well-formed UTF-8, and the text decodes those bytes.
#[verifier::external_body]
pub(crate) fn string_from_utf8(data: &[u8]) -> (text: Option<String>)
    ensures
        text is Some <==> valid_utf8(data@),
        text matches Some(t) ==> t@ == decode_utf8(data@),
{
    core::str::from_utf8(data).ok().map(|t| t.to_string())
}

/// The address of the Ed25519 signature-verification program,
/// `Ed25519SigVerify111111111111111111111111111`.
pub open spec fn spec_ed25519_program_id() -> Seq<u8> {
    seq![
        3u8, 125u8, 70u8, 214u8, 124u8, 147u8, 251u8, 190u8, 18u8, 249u8, 66u8, 143u8, 131u8,
        141u8, 64u8, 255u8, 5u8, 112u8, 116u8, 73u8, 39u8, 244u8, 138u8, 100u8, 252u8, 202u8,
        112u8, 68u8, 128u8, 0u8, 0u8, 0u8,
    ]
}

/// Calls `solana_program::ed25519_program::id`. Trusted: it is the address
/// the crate declares, `Ed25519SigVerify111111111111111111111111111`, whose
/// base58 digits decode to the bytes of `spec_ed25519_program_id`.
#[verifier::external_body]
pub(crate) fn ed25519_program_id() -> (id: Pubkey)
    ensures
        id@ == spec_ed25519_program_id(),
{
    solana_program::ed25519_program::id().to_bytes()
}

/// The address of the instructions sysvar,
/// `Sysvar1nstructions1111111111111111111111111`.
pub open spec fn spec_instructions_sysvar_id() -> Seq<u8> {
    seq![
        6u8, 167u8, 213u8, 23u8, 24u8, 123u8, 209u8, 102u8, 53u8, 218u8, 212u8, 4u8, 85u8, 253u8,
        194u8, 192u8, 193u8, 36u8, 198u8, 143u8, 33u8, 86u8, 117u8, 165u8, 219u8, 186u8, 203u8,
        95u8, 8u8, 0u8, 0u8, 0u8,
    ]
}

/// Calls `solana_program::sysvar::instructions::id`. Trusted: it is the
/// address the crate declares, `Sysvar1nstructions1111111111111111111111111`,
/// whose base58 digits decode to the bytes of `spec_instructions_sysvar_id`.
#[verifier::external_body]
pub(crate) fn instructions_sysvar_id() -> (id: Pubkey)
    ensures
        id@ == spec_instructions_sysvar_id(),
{
    solana_program::sysvar::instructions::id().to_bytes()
}

/// The program id and data of the transaction instruction at
/// `index_relative_to_current` from the executing one, as decoded from the
/// instructions sysvar data, or `None` when there is no such instruction or
/// the data does not decode.
pub uninterp spec fn spec_instruction_relative(index_relative_to_current: i64, sysvar_data: Seq<u8>) -> Option<(Seq<u8>, Seq<u8>)>;

/// Calls `solana_program::sysvar::instructions::get_instruction_relative` on
/// an account at `sysvar_key` holding `sysvar_data`. Trusted: away from the
/// sysvar address it returns nothing; at it, the outcome is a function of
/// the relative index and the data alone, named `spec_instruction_relative`.
/// The call reads the current index from the last two bytes and panics on
/// shorter data, which `requires` excludes.
#[verifier::external_body]
pub(crate) fn get_instruction_relative(
    index_relative_to_current: i64,
    sysvar_key: &Pubkey,
    sysvar_data: &[u8],
) -> (ix: Option<(Pubkey, Vec<u8>)>)
    requires
        sysvar_key@ == spec_instructions_sysvar_id() ==> sysvar_data@.len() >= 2,
    ensures
        sysvar_key@ != spec_instructions_sysvar_id() ==> ix is None,
        sysvar_key@ == spec_instructions_sysvar_id() ==> match ix {
            Some(found) => spec_instruction_relative(index_relative_to_current, sysvar_data@)
                == Some((found.0@, found.1@)),
            None => spec_instruction_relative(index_relative_to_current, sysvar_data@) is None,
        },
{
    let key = solana_program::pubkey::Pubkey::new_from_array(*sysvar_key);
    let mut lamports = 0u64;
    let mut data = sysvar_data.to_vec();
    let info = solana_program::account_info::AccountInfo::new(
        &key, false, false, &mut lamports, &mut data, &key, false, 0,
    );
    solana_program::sysvar::instructions::get_instruction_relative(index_relative_to_current, &info)
        .ok()
        .map(|ix| (ix.program_id.to_bytes(), ix.data))
}

} // verus!
