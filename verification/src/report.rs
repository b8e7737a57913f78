//! The result assembler and the pipeline as a whole.

use crate::authentication;
use crate::authentication::ProofError;
use crate::authentication::RangeFault;
use crate::codec;
use crate::codec::ParseError;
use crate::commitment;
use crate::commitment::SignatureError;
use crate::digest;
use crate::http;
use crate::http::ApplicationData;
use crate::http::ApplicationDataView;
use crate::json;
use crate::json::JsonTree;
use crate::presentation::Presentation;
use crate::presentation::PresentationView;
use crate::provider::CryptoProvider;
use crate::provider::DefaultProvider;
use crate::transcript;
use crate::transcript::TranscriptView;
use vstd::prelude::*;

verus! {

/// The first failure of the pipeline.
#[derive(Debug, Clone, Copy, PartialEq, Eq, Structural)]
pub enum VerifyError {
    Parse(ParseError),
    Signature(SignatureError),
    Proof(ProofError),
}

/// The report of one verification. `data` and `redacted_ranges` are
/// meaningful where `valid` is true, `error` where it is false. `data` is
/// JSON: null where nothing was disclosed, else what the response decodes to.
/// `redacted_ranges` holds the ranges that were disclosed and proven, not
/// those withheld. `proof_hash` is the content hash of the serialized
/// presentation, whatever the outcome.
#[derive(Debug, PartialEq)]
pub struct VerificationResult {
    pub valid: bool,
    pub server_name: String,
    pub time: u64,
    pub data: serde_json::Value,
    pub proof_hash: String,
    pub notary_pubkey: String,
    pub redacted_ranges: Option<Vec<(usize, usize)>>,
    pub error: Option<String>,
}

/// What a `VerificationResult` holds, as mathematical values.
pub struct VerificationResultView {
    pub valid: bool,
    pub server_name: Seq<char>,
    pub time: u64,
    pub data: JsonTree,
    pub proof_hash: Seq<char>,
    pub notary_pubkey: Seq<char>,
    pub redacted_ranges: Option<Seq<(usize, usize)>>,
    pub error: Option<Seq<char>>,
}

impl View for VerificationResult {
    type V = VerificationResultView;

    open spec fn view(&self) -> VerificationResultView {
        VerificationResultView {
            valid: self.valid,
            server_name: self.server_name@,
            time: self.time,
            data: json::json_tree(self.data),
            proof_hash: self.proof_hash@,
            notary_pubkey: self.notary_pubkey@,
            redacted_ranges: match self.redacted_ranges {
                Some(ranges) => Some(ranges@),
                None => None,
            },
            error: match self.error {
                Some(text) => Some(text@),
                None => None,
            },
        }
    }
}

/// What a presentation that passed discloses: the proven ranges and the
/// decoded response.
#[derive(Debug, PartialEq)]
pub struct Disclosure {
    pub ranges: Vec<(usize, usize)>,
    pub data: ApplicationData,
}

/// What a `Disclosure` holds, as mathematical values.
pub struct DisclosureView {
    pub ranges: Seq<(usize, usize)>,
    pub data: ApplicationDataView,
}

impl View for Disclosure {
    type V = DisclosureView;

    open spec fn view(&self) -> DisclosureView {
        DisclosureView { ranges: self.ranges@, data: self.data@ }
    }
}

/// What is said of a parse error.
pub open spec fn parse_error_text(e: ParseError) -> Seq<char> {
    match e {
        ParseError::Syntax => "the input is not a JSON document"@,
        ParseError::MissingSessionHeader => "session_header is missing"@,
        ParseError::MissingTranscriptProof => "transcript_proof is missing"@,
        ParseError::MissingSignature => "signature is missing"@,
        ParseError::ServerName => "server_name is not a host name"@,
        ParseError::HandshakeHash => "handshake_hash is not an array of bytes"@,
        ParseError::Timestamp => "timestamp is not a positive integer"@,
        ParseError::Sent => "sent is not an array of bytes"@,
        ParseError::Received => "received is not an array of bytes"@,
        ParseError::Ranges => "ranges is not an array of ranges"@,
        ParseError::Signature => "signature is not an array of bytes with or without a key"@,
    }
}

/// What is said of a signature error.
pub open spec fn signature_error_text(e: SignatureError) -> Seq<char> {
    match e {
        SignatureError::Empty => "signature error: the signature is empty"@,
        SignatureError::Rejected =>
            "signature error: the signature does not match the session header"@,
    }
}

/// What is said of a fault in the transcript proof.
pub open spec fn range_fault_text(fault: RangeFault) -> Seq<char> {
    match fault {
        RangeFault::Inverted => "proof error: a range ends before it starts"@,
        RangeFault::OutOfBounds => "proof error: a range ends beyond the transcript"@,
        RangeFault::EmptyFlag => "proof error: a range is empty and does not declare so"@,
        RangeFault::Overlap => "proof error: the ranges overlap or are out of order"@,
        RangeFault::Unauthenticated =>
            "proof error: a range does not hash to the committed root"@,
    }
}

/// The message of a failure.
pub open spec fn error_text(e: VerifyError) -> Seq<char> {
    match e {
        VerifyError::Parse(e) => "Parse error: "@ + parse_error_text(e),
        VerifyError::Signature(e) => "Verification failed: "@ + signature_error_text(e),
        VerifyError::Proof(e) => "Verification failed: "@ + range_fault_text(e.fault),
    }
}

/// The report of a failure: nothing of the presentation is passed on.
pub open spec fn rejected_report(e: VerifyError, proof_hash: Seq<char>) -> VerificationResultView {
    VerificationResultView {
        valid: false,
        server_name: Seq::empty(),
        time: 0,
        data: JsonTree::Null,
        proof_hash,
        notary_pubkey: Seq::empty(),
        redacted_ranges: None,
        error: Some(error_text(e)),
    }
}

/// The session time of a header, zero where it states none.
pub open spec fn session_time(timestamp: Option<u64>) -> u64 {
    match timestamp {
        Some(t) => t,
        None => 0,
    }
}

/// The report of a presentation that passed.
pub open spec fn accepted_report(
    presentation: PresentationView,
    disclosure: DisclosureView,
    proof_hash: Seq<char>,
) -> VerificationResultView {
    VerificationResultView {
        valid: true,
        server_name: presentation.session_header.server_name,
        time: session_time(presentation.session_header.timestamp),
        data: http::data_tree(disclosure.data),
        proof_hash,
        notary_pubkey: digest::hex_text(presentation.signature.public_key),
        redacted_ranges: Some(disclosure.ranges),
        error: None,
    }
}

/// The report of a judged presentation.
pub open spec fn assemble_report(
    presentation: PresentationView,
    judged: Result<DisclosureView, VerifyError>,
    proof_hash: Seq<char>,
) -> VerificationResultView {
    match judged {
        Ok(disclosure) => accepted_report(presentation, disclosure, proof_hash),
        Err(e) => rejected_report(e, proof_hash),
    }
}

/// What the proven `ranges` disclose of a presentation: nothing where there
/// is no range, else the decoded response.
pub open spec fn disclosure_of(
    presentation: PresentationView,
    ranges: Seq<(usize, usize)>,
) -> DisclosureView {
    DisclosureView {
        ranges,
        data: if ranges.len() == 0 {
            ApplicationDataView::Null
        } else {
            http::decode_transcript(
                TranscriptView {
                    cells: transcript::disclose(ranges, presentation.transcript_proof.data),
                    sent_len: presentation.transcript_proof.sent_len,
                },
            )
        },
    }
}

/// The judgement on a parsed presentation: the signature first, then the
/// transcript proof; the first failure ends it.
pub open spec fn judgement<P: CryptoProvider>(provider: &P, presentation: PresentationView) -> Result<
    DisclosureView,
    VerifyError,
> {
    match commitment::signature_fault(
        provider,
        presentation.session_header,
        presentation.signature,
    ) {
        Some(e) => Err(VerifyError::Signature(e)),
        None => match authentication::transcript_verdict(
            provider,
            presentation.transcript_proof,
            presentation.session_header.handshake_hash,
        ) {
            Err(e) => Err(VerifyError::Proof(e)),
            Ok(ranges) => Ok(disclosure_of(presentation, ranges)),
        },
    }
}

/// The report on a serialized presentation.
pub open spec fn report<P: CryptoProvider>(provider: &P, text: Seq<char>) -> VerificationResultView {
    match codec::presentation_of(text) {
        Err(e) => rejected_report(VerifyError::Parse(e), digest::content_hash(text)),
        Ok(presentation) => assemble_report(
            presentation,
            judgement(provider, presentation),
            digest::content_hash(text),
        ),
    }
}

/// What is said of a parse error.
fn parse_error_message(e: ParseError) -> (text: &'static str)
    ensures
        text@ == parse_error_text(e),
{
    match e {
        ParseError::Syntax => "the input is not a JSON document",
        ParseError::MissingSessionHeader => "session_header is missing",
        ParseError::MissingTranscriptProof => "transcript_proof is missing",
        ParseError::MissingSignature => "signature is missing",
        ParseError::ServerName => "server_name is not a host name",
        ParseError::HandshakeHash => "handshake_hash is not an array of bytes",
        ParseError::Timestamp => "timestamp is not a positive integer",
        ParseError::Sent => "sent is not an array of bytes",
        ParseError::Received => "received is not an array of bytes",
        ParseError::Ranges => "ranges is not an array of ranges",
        ParseError::Signature => "signature is not an array of bytes with or without a key",
    }
}

/// What is said of a signature error.
fn signature_error_message(e: SignatureError) -> (text: &'static str)
    ensures
        text@ == signature_error_text(e),
{
    match e {
        SignatureError::Empty => "signature error: the signature is empty",
        SignatureError::Rejected =>
            "signature error: the signature does not match the session header",
    }
}

/// What is said of a fault in the transcript proof.
fn range_fault_message(fault: RangeFault) -> (text: &'static str)
    ensures
        text@ == range_fault_text(fault),
{
    match fault {
        RangeFault::Inverted => "proof error: a range ends before it starts",
        RangeFault::OutOfBounds => "proof error: a range ends beyond the transcript",
        RangeFault::EmptyFlag => "proof error: a range is empty and does not declare so",
        RangeFault::Overlap => "proof error: the ranges overlap or are out of order",
        RangeFault::Unauthenticated => "proof error: a range does not hash to the committed root",
    }
}

impl VerifyError {
    /// The message of this failure.
    pub fn message(&self) -> (text: String)
        ensures
            text@ == error_text(*self),
    {
        match self {
            VerifyError::Parse(e) => String::from_str("Parse error: ").concat(
                parse_error_message(*e),
            ),
            VerifyError::Signature(e) => String::from_str("Verification failed: ").concat(
                signature_error_message(*e),
            ),
            VerifyError::Proof(e) => String::from_str("Verification failed: ").concat(
                range_fault_message(e.fault),
            ),
        }
    }
}

/// Runs the checks on a parsed presentation: the notary's signature, then
/// the transcript proof, then reconstruction and decoding. No stage runs
/// after one that failed.
pub fn judge<P: CryptoProvider>(presentation: &Presentation, provider: &P) -> (judged: Result<
    Disclosure,
    VerifyError,
>)
    ensures
        match judged {
            Ok(disclosure) => judgement(provider, presentation@) == Ok::<
                DisclosureView,
                VerifyError,
            >(disclosure@),
            Err(e) => judgement(provider, presentation@) == Err::<DisclosureView, VerifyError>(e),
        },
{
    match commitment::verify_signature(
        &presentation.session_header,
        &presentation.signature,
        provider,
    ) {
        Ok(_) => {},
        Err(e) => {
            return Err(VerifyError::Signature(e));
        },
    }
    let ranges = match authentication::verify_transcript(
        &presentation.transcript_proof,
        presentation.session_header.handshake_hash.as_slice(),
        provider,
    ) {
        Ok(ranges) => ranges,
        Err(e) => {
            return Err(VerifyError::Proof(e));
        },
    };
    let data = if ranges.len() == 0 {
        ApplicationData::Null
    } else {
        let transcript = transcript::reconstruct(
            ranges.as_slice(),
            presentation.transcript_proof.data.as_slice(),
            presentation.transcript_proof.sent_len,
        );
        http::decode_http(&transcript)
    };
    Ok(Disclosure { ranges, data })
}

/// Combines a presentation, the judgement on it and the content hash of its
/// serialized form into the report.
pub fn assemble(
    presentation: &Presentation,
    judged: Result<Disclosure, VerifyError>,
    proof_hash: String,
) -> (result: VerificationResult)
    ensures
        result@ == assemble_report(
            presentation@,
            match judged {
                Ok(disclosure) => Ok(disclosure@),
                Err(e) => Err(e),
            },
            proof_hash@,
        ),
{
    match judged {
        Ok(disclosure) => VerificationResult {
            valid: true,
            server_name: presentation.session_header.server_name.clone(),
            time: match presentation.session_header.timestamp {
                Some(t) => t,
                None => 0,
            },
            data: disclosure.data.into_json(),
            proof_hash,
            notary_pubkey: digest::hex_encode(presentation.signature.public_key.as_slice()),
            redacted_ranges: Some(disclosure.ranges),
            error: None,
        },
        Err(e) => reject(&e, proof_hash),
    }
}

/// The report of a failure.
pub fn reject(error: &VerifyError, proof_hash: String) -> (result: VerificationResult)
    ensures
        result@ == rejected_report(*error, proof_hash@),
{
    VerificationResult {
        valid: false,
        server_name: String::new(),
        time: 0,
        data: json::json_null(),
        proof_hash,
        notary_pubkey: String::new(),
        redacted_ranges: None,
        error: Some(error.message()),
    }
}

/// Verifies a serialized presentation with `provider`. The caller always
/// gets a report: a presentation that does not parse, whose signature is
/// refused or whose proof does not hold gives one that is not valid and
/// says why.
pub fn verify<P: CryptoProvider>(text: &str, provider: &P) -> (result: VerificationResult)
    ensures
        result@ == report(provider, text@),
{
    let proof_hash = digest::calculate_hash(text);
    match codec::parse(text) {
        Ok(presentation) => {
            let judged = judge(&presentation, provider);
            assemble(&presentation, judged, proof_hash)
        },
        Err(e) => reject(&VerifyError::Parse(e), proof_hash),
    }
}

/// Verifies a serialized presentation with `provider`. A presentation that
/// does not parse is an error, found before any signature or hash is
/// checked; every other outcome is a report.
pub fn verify_presentation_with<P: CryptoProvider>(presentation_json: &str, provider: &P) -> (result:
    Result<VerificationResult, ParseError>)
    ensures
        match result {
            Ok(r) => codec::presentation_of(presentation_json@) is Ok && r@ == report(
                provider,
                presentation_json@,
            ),
            Err(e) => codec::presentation_of(presentation_json@) == Err::<
                PresentationView,
                ParseError,
            >(e),
        },
{
    match codec::parse(presentation_json) {
        Ok(presentation) => {
            let judged = judge(&presentation, provider);
            Ok(assemble(&presentation, judged, digest::calculate_hash(presentation_json)))
        },
        Err(e) => Err(e),
    }
}

/// Verifies a serialized presentation with the default provider.
pub fn verify_presentation(presentation_json: &str) -> (result: Result<
    VerificationResult,
    ParseError,
>)
    ensures
        match result {
            Ok(r) => codec::presentation_of(presentation_json@) is Ok && r@ == report(
                &DefaultProvider,
                presentation_json@,
            ),
            Err(e) => codec::presentation_of(presentation_json@) == Err::<
                PresentationView,
                ParseError,
            >(e),
        },
{
    verify_presentation_with(presentation_json, &DefaultProvider)
}

} // verus!
