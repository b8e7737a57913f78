//! Verification of TLS Notary presentations.
//!
//! A presentation binds a session header (server name, handshake commitment,
//! optional timestamp) to a notary's signature and carries a transcript proof
//! that discloses chosen byte ranges of the exchanged data. The pipeline is
//! codec, commitment check, transcript proof check, reconstruction, decoding
//! of the HTTP response and assembly of the report. Every stage fails closed.
//!
//! | stage                   | module           | entry point                     |
//! |-------------------------|------------------|---------------------------------|
//! | codec                   | `codec`          | `parse`                         |
//! | commitment verifier     | `commitment`     | `verify_signature`              |
//! | transcript proof        | `authentication` | `verify_transcript`             |
//! | reconstructor           | `transcript`     | `reconstruct`                   |
//! | application decoder     | `http`           | `decode_http`                   |
//! | result assembler        | `report`         | `assemble`, `verify`            |
//!
//! The signature scheme and the hash are those of a `CryptoProvider`.
//! `verify_presentation` runs the pipeline with the default provider, ECDSA
//! over secp256k1 with SHA-256. What holds of the pipeline as a whole is
//! proved in `laws`.

pub mod authentication;
pub mod bytes;
pub mod codec;
pub mod commitment;
pub mod digest;
pub mod hostname;
pub mod http;
pub mod json;
pub mod laws;
pub mod presentation;
pub mod provider;
pub mod report;
pub mod transcript;

pub use authentication::verify_transcript;
pub use authentication::ProofError;
pub use authentication::RangeFault;
pub use codec::parse;
pub use codec::ParseError;
pub use commitment::verify_signature;
pub use commitment::SignatureError;
pub use digest::calculate_hash;
pub use http::decode_http;
pub use http::parse_http_response;
pub use http::ApplicationData;
pub use presentation::DisclosedRange;
pub use presentation::NotarySignature;
pub use presentation::PathStep;
pub use presentation::Presentation;
pub use presentation::SessionHeader;
pub use presentation::TranscriptProof;
pub use provider::CryptoProvider;
pub use provider::DefaultProvider;
pub use provider::FixedProvider;
pub use report::verify;
pub use report::verify_presentation;
pub use report::verify_presentation_with;
pub use report::VerificationResult;
pub use report::VerifyError;
pub use transcript::reconstruct;
pub use transcript::Transcript;
