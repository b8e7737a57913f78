//! The cryptographic provider: the signature scheme and the hash function
//! that the pipeline is run with.

use crate::bytes;
use crate::digest;
use vstd::prelude::*;

verus! {

/// A signature scheme and a hash function. The pipeline depends on nothing
/// of a provider but that each operation is a function of its arguments.
pub trait CryptoProvider {
    /// Whether `signature` is the notary's signature over `message` under
    /// `public_key`. An empty key stands for the one that the provider
    /// implies.
    spec fn accepts(&self, message: Seq<u8>, signature: Seq<u8>, public_key: Seq<u8>) -> bool;

    /// The hash of `bytes`.
    spec fn digest(&self, bytes: Seq<u8>) -> Seq<u8>;

    fn verify(&self, message: &[u8], signature: &[u8], public_key: &[u8]) -> (ok: bool)
        ensures
            ok == self.accepts(message@, signature@, public_key@),
    ;

    fn hash(&self, bytes: &[u8]) -> (digest: Vec<u8>)
        ensures
            digest@ == self.digest(bytes@),
    ;
}

/// Whether the `k256` crate accepts `signature`, the 64 bytes of `r` and `s`,
/// as an ECDSA signature over secp256k1 and SHA-256 of `message` under the
/// SEC1-encoded `public_key`. The crate takes only the one of a signature's
/// two forms whose `s` is in the lower half of its range.
pub uninterp spec fn secp256k1_accepts(
    message: Seq<u8>,
    signature: Seq<u8>,
    public_key: Seq<u8>,
) -> bool;

/// Trusted: `k256::ecdsa::VerifyingKey::from_sec1_bytes`,
/// `k256::ecdsa::Signature::from_slice` and the key's `Verifier::verify`.
/// The answer is a function of the three byte strings, and a signature that
/// is not 64 bytes long is never accepted. A key or a signature that does not
/// parse is a refusal, not a fault.
#[verifier::external_body]
fn secp256k1_verify(message: &[u8], signature: &[u8], public_key: &[u8]) -> (ok: bool)
    ensures
        ok == secp256k1_accepts(message@, signature@, public_key@),
        ok ==> signature@.len() == 64,
{
    let key = match k256::ecdsa::VerifyingKey::from_sec1_bytes(public_key) {
        Ok(key) => key,
        Err(_) => return false,
    };
    let parsed = match k256::ecdsa::Signature::from_slice(signature) {
        Ok(parsed) => parsed,
        Err(_) => return false,
    };
    k256::ecdsa::signature::Verifier::verify(&key, message, &parsed).is_ok()
}

/// ECDSA over secp256k1 with SHA-256 for signatures, SHA-256 for hashes. The
/// notary's key must be embedded in the presentation: this provider implies
/// none. It checks the signature under the key that the presentation names;
/// whether that key is one that the relying party trusts is for the relying
/// party to say, from the key in the report.
#[derive(Debug, Clone, Copy)]
pub struct DefaultProvider;

impl CryptoProvider for DefaultProvider {
    open spec fn accepts(&self, message: Seq<u8>, signature: Seq<u8>, public_key: Seq<u8>) -> bool {
        secp256k1_accepts(message, signature, public_key)
    }

    open spec fn digest(&self, bytes: Seq<u8>) -> Seq<u8> {
        digest::sha256(bytes)
    }

    fn verify(&self, message: &[u8], signature: &[u8], public_key: &[u8]) -> (ok: bool) {
        secp256k1_verify(message, signature, public_key)
    }

    fn hash(&self, bytes: &[u8]) -> (digest: Vec<u8>) {
        digest::sha256_digest(bytes)
    }
}

/// A provider without cryptography, for exercising the pipeline: it accepts
/// exactly the signature that it holds, whatever the message and the key, and
/// every hash is the digest that it holds.
#[derive(Debug, Clone, PartialEq, Eq)]
pub struct FixedProvider {
    pub signature: Vec<u8>,
    pub digest: Vec<u8>,
}

impl CryptoProvider for FixedProvider {
    open spec fn accepts(&self, message: Seq<u8>, signature: Seq<u8>, public_key: Seq<u8>) -> bool {
        signature == self.signature@
    }

    open spec fn digest(&self, bytes: Seq<u8>) -> Seq<u8> {
        self.digest@
    }

    fn verify(&self, message: &[u8], signature: &[u8], public_key: &[u8]) -> (ok: bool) {
        bytes::bytes_equal(signature, self.signature.as_slice())
    }

    fn hash(&self, bytes: &[u8]) -> (digest: Vec<u8>) {
        bytes::copy_bytes(self.digest.as_slice())
    }
}

} // verus!
