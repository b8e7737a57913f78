//! Content digests: SHA-256 and lower-case hexadecimal text.

use sha2::Digest;
use vstd::prelude::*;

verus! {

/// The SHA-256 digest of `bytes`. The value is whatever the `sha2` crate
/// computes; nothing but its length is known to the proofs.
pub uninterp spec fn sha256(bytes: Seq<u8>) -> Seq<u8>;

/// The lower-case hexadecimal digit of a value below sixteen.
pub open spec fn hex_digit(nibble: u8) -> char {
    if nibble < 10 {
        ((0x30 + nibble) as u8) as char
    } else {
        ((0x57 + nibble) as u8) as char
    }
}

/// Two lower-case hexadecimal digits per byte, the high half first.
pub open spec fn hex_text(bytes: Seq<u8>) -> Seq<char> {
    Seq::new(
        2 * bytes.len(),
        |i: int|
            if i % 2 == 0 {
                hex_digit(bytes[i / 2] / 16)
            } else {
                hex_digit(bytes[i / 2] % 16)
            },
    )
}

/// The content hash of a serialized presentation: the hexadecimal text of the
/// SHA-256 digest of its UTF-8 bytes.
pub open spec fn content_hash(text: Seq<char>) -> Seq<char> {
    hex_text(sha256(vstd::utf8::encode_utf8(text)))
}

/// Trusted: `sha2::Sha256::digest`. The result is the SHA-256 digest of the
/// argument, which is 32 bytes long whatever the input.
#[verifier::external_body]
pub(crate) fn sha256_digest(bytes: &[u8]) -> (digest: Vec<u8>)
    ensures
        digest@ == sha256(bytes@),
        digest@.len() == 32,
{
    sha2::Sha256::digest(bytes).to_vec()
}

/// Trusted: `hex::encode`. The result holds, for each byte in order, the
/// lower-case digit of its high half and then that of its low half.
#[verifier::external_body]
pub(crate) fn hex_encode(bytes: &[u8]) -> (text: String)
    ensures
        text@ == hex_text(bytes@),
{
    hex::encode(bytes)
}

/// The content hash of `data`, for audit correlation.
pub fn calculate_hash(data: &str) -> (hash: String)
    ensures
        hash@ == content_hash(data@),
        hash@.len() == 64,
{
    let digest = sha256_digest(data.as_bytes());
    hex_encode(digest.as_slice())
}

} // verus!
