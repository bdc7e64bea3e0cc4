//! SHA-256 and lower-case hex encoding, the two byte transforms the protocol
//! takes from outside crates.
use vstd::prelude::*;
use sha2::Digest;

verus! {

/// The SHA-256 digest of a byte string.
pub uninterp spec fn spec_sha256(data: Seq<u8>) -> Seq<u8>;

/// Calls `sha2::Sha256::digest`. Trusted: the result is the 32-byte SHA-256
/// digest of `data`, named `spec_sha256`; nothing else about SHA-256 is
/// claimed.
#[verifier::external_body]
pub(crate) fn sha256(data: &[u8]) -> (digest: [u8; 32])
    ensures
        digest@ == spec_sha256(data@),
{
    sha2::Sha256::digest(data).into()
}

/// The lower-case hexadecimal digit for a value below 16.
pub open spec fn hex_digit(n: u8) -> char {
    if n < 10 {
        (48 + n) as char
    } else {
        (87 + n) as char
    }
}

/// Lower-case hexadecimal text of a byte string, two digits per byte, high
/// nibble first.
pub open spec fn spec_hex_lower(data: Seq<u8>) -> Seq<char>
    decreases data.len(),
{
    if data.len() == 0 {
        Seq::empty()
    } else {
        seq![hex_digit(data[0] / 16), hex_digit(data[0] % 16)] + spec_hex_lower(data.drop_first())
    }
}

/// Calls `hex::encode`. Trusted: the result is the lower-case hex text of
/// `data`, two digits per byte with the high nibble first, as the crate's
/// `HEX_CHARS_LOWER` table produces it.
#[verifier::external_body]
pub(crate) fn hex_encode(data: &[u8]) -> (text: String)
    ensures
        text@ == spec_hex_lower(data@),
{
    hex::encode(data)
}

} // verus!
