//! The commitment verifier: the notary's signature over the session header.

use crate::bytes;
use crate::presentation::NotarySignature;
use crate::presentation::NotarySignatureView;
use crate::presentation::SessionHeader;
use crate::presentation::SessionHeaderView;
use crate::provider::CryptoProvider;
use vstd::prelude::*;

verus! {

/// Why a signature was refused.
#[derive(Debug, Clone, Copy, PartialEq, Eq, Structural)]
pub enum SignatureError {
    /// The signature has no bytes: no scheme has signatures of that length.
    Empty,
    /// The provider does not accept the signature over the header.
    Rejected,
}

/// One byte that says whether a timestamp follows, then the timestamp.
pub open spec fn timestamp_bytes(timestamp: Option<u64>) -> Seq<u8> {
    match timestamp {
        None => seq![0u8],
        Some(t) => seq![1u8] + bytes::be64(t),
    }
}

/// The bytes that the notary signs for a header: the framed UTF-8 bytes of
/// the server name, the framed handshake hash, and the timestamp.
pub open spec fn canonical_header(header: SessionHeaderView) -> Seq<u8> {
    bytes::framed(vstd::utf8::encode_utf8(header.server_name)) + bytes::framed(header.handshake_hash)
        + timestamp_bytes(header.timestamp)
}

/// Two headers with the same canonical bytes are the same header: a
/// signature over one is a signature over no other.
pub proof fn law_canonical_header_is_injective(a: SessionHeaderView, b: SessionHeaderView)
    requires
        vstd::utf8::encode_utf8(a.server_name).len() <= u64::MAX,
        vstd::utf8::encode_utf8(b.server_name).len() <= u64::MAX,
        a.handshake_hash.len() <= u64::MAX,
        b.handshake_hash.len() <= u64::MAX,
        canonical_header(a) == canonical_header(b),
    ensures
        a == b,
{
    let name_a = vstd::utf8::encode_utf8(a.server_name);
    let name_b = vstd::utf8::encode_utf8(b.server_name);
    let rest_a = bytes::framed(a.handshake_hash) + timestamp_bytes(a.timestamp);
    let rest_b = bytes::framed(b.handshake_hash) + timestamp_bytes(b.timestamp);
    assert(canonical_header(a) =~= bytes::framed(name_a) + rest_a);
    assert(canonical_header(b) =~= bytes::framed(name_b) + rest_b);
    bytes::lemma_framed_is_unambiguous(name_a, rest_a, name_b, rest_b);
    bytes::lemma_framed_is_unambiguous(
        a.handshake_hash,
        timestamp_bytes(a.timestamp),
        b.handshake_hash,
        timestamp_bytes(b.timestamp),
    );
    vstd::utf8::encode_utf8_decode_utf8(a.server_name);
    vstd::utf8::encode_utf8_decode_utf8(b.server_name);
    assert(a.server_name == b.server_name);
    let ta = timestamp_bytes(a.timestamp);
    let tb = timestamp_bytes(b.timestamp);
    assert(ta[0] == tb[0]);
    match (a.timestamp, b.timestamp) {
        (Some(x), Some(y)) => {
            bytes::lemma_be64_is_injective(x, y);
            bytes::lemma_be64_is_injective(y, x);
            assert(ta.subrange(1, 9) =~= bytes::be64(x));
            assert(tb.subrange(1, 9) =~= bytes::be64(y));
        },
        _ => {},
    }
    assert(a.timestamp == b.timestamp);
}

/// What is wrong with the signature over `header`, if anything.
pub open spec fn signature_fault<P: CryptoProvider>(
    provider: &P,
    header: SessionHeaderView,
    signature: NotarySignatureView,
) -> Option<SignatureError> {
    if signature.bytes.len() == 0 {
        Some(SignatureError::Empty)
    } else if !provider.accepts(canonical_header(header), signature.bytes, signature.public_key) {
        Some(SignatureError::Rejected)
    } else {
        None
    }
}

/// The bytes that the notary signs for `header`.
pub fn canonical_header_bytes(header: &SessionHeader) -> (message: Vec<u8>)
    ensures
        message@ == canonical_header(header@),
{
    let mut message: Vec<u8> = Vec::new();
    let name = header.server_name.as_str().as_bytes();
    bytes::push_be64(&mut message, name.len() as u64);
    bytes::push_bytes(&mut message, name);
    bytes::push_be64(&mut message, header.handshake_hash.len() as u64);
    bytes::push_bytes(&mut message, header.handshake_hash.as_slice());
    match header.timestamp {
        None => {
            message.push(0u8);
        },
        Some(t) => {
            message.push(1u8);
            bytes::push_be64(&mut message, t);
        },
    }
    assert(message@ =~= canonical_header(header@));
    message
}

/// Checks the notary's signature over the canonical bytes of `header`. The
/// signature is in order exactly when it is not empty and the provider
/// accepts it.
pub fn verify_signature<P: CryptoProvider>(
    header: &SessionHeader,
    signature: &NotarySignature,
    provider: &P,
) -> (checked: Result<(), SignatureError>)
    ensures
        match checked {
            Ok(_) => signature_fault(provider, header@, signature@) is None,
            Err(e) => signature_fault(provider, header@, signature@) == Some(e),
        },
{
    if signature.bytes.len() == 0 {
        return Err(SignatureError::Empty);
    }
    let message = canonical_header_bytes(header);
    if provider.verify(
        message.as_slice(),
        signature.bytes.as_slice(),
        signature.public_key.as_slice(),
    ) {
        Ok(())
    } else {
        Err(SignatureError::Rejected)
    }
}

} // verus!
