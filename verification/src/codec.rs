//! The codec: from a serialized presentation to its parts in memory.
//!
//! A presentation is a JSON object with the members `session_header`,
//! `transcript_proof` and `signature`, none of which may be missing:
//!
//! ```text
//! { "session_header":   { "server_name": "api.example.com",
//!                         "handshake_hash": [1, 2, 3, 4],
//!                         "timestamp": 1700000000 },
//!   "transcript_proof": { "sent": [], "received": [72, 73],
//!                         "ranges": [ { "start": 0, "end": 2,
//!                                       "empty": false,
//!                                       "path": [ { "sibling": [9, 9], "left": true } ] } ] },
//!   "signature":        { "bytes": [5, 6, 7, 8], "public_key": [2, 1] } }
//! ```
//!
//! Bytes are arrays of integers from 0 to 255. `timestamp`, `empty` and `path`
//! may be left out, and `signature` may be the bare array of its bytes. The
//! ranges count from the first byte sent, through what was sent, on into
//! what was received. Members that this module does not name are passed
//! over.

use crate::hostname;
use crate::json;
use crate::json::JsonTree;
use crate::presentation::DisclosedRange;
use crate::presentation::DisclosedRangeView;
use crate::presentation::NotarySignature;
use crate::presentation::NotarySignatureView;
use crate::presentation::PathStep;
use crate::presentation::PathStepView;
use crate::presentation::Presentation;
use crate::presentation::PresentationView;
use crate::presentation::SessionHeader;
use crate::presentation::SessionHeaderView;
use crate::presentation::TranscriptProof;
use crate::presentation::TranscriptProofView;
use vstd::prelude::*;

verus! {

/// Why a serialized presentation was refused.
#[derive(Debug, Clone, Copy, PartialEq, Eq, Structural)]
pub enum ParseError {
    /// The text is not one well-formed JSON document.
    Syntax,
    /// There is no member `session_header`.
    MissingSessionHeader,
    /// There is no member `transcript_proof`.
    MissingTranscriptProof,
    /// There is no member `signature`.
    MissingSignature,
    /// `server_name` is missing, is no string, or is no host name.
    ServerName,
    /// `handshake_hash` is missing or is no array of bytes.
    HandshakeHash,
    /// `timestamp` is there and is not a positive integer below 2^64.
    Timestamp,
    /// `sent` is missing or is no array of bytes.
    Sent,
    /// `received` is missing or is no array of bytes.
    Received,
    /// `ranges` is missing or is no array of ranges.
    Ranges,
    /// `signature` is neither an array of bytes nor an object whose members
    /// `bytes` and `public_key` are arrays of bytes.
    Signature,
}

/// A number from 0 to 255.
pub open spec fn decode_byte(tree: JsonTree) -> Option<u8> {
    match tree.natural() {
        Some(n) => if n <= 255 {
            Some(n as u8)
        } else {
            None
        },
        None => None,
    }
}

/// An array of numbers from 0 to 255.
pub open spec fn decode_bytes(tree: JsonTree) -> Option<Seq<u8>> {
    match tree.items() {
        Some(items) => decode_byte_items(items),
        None => None,
    }
}

/// Every element as a byte, if every element is one.
pub open spec fn decode_byte_items(items: Seq<JsonTree>) -> Option<Seq<u8>> {
    if forall|i: int| 0 <= i < items.len() ==> (#[trigger] decode_byte(items[i])) is Some {
        Some(Seq::new(items.len(), |i: int| decode_byte(items[i])->0))
    } else {
        None
    }
}

/// The member under `key` as an array of bytes.
pub open spec fn decode_member_bytes(tree: JsonTree, key: Seq<char>) -> Option<Seq<u8>> {
    match tree.member(key) {
        Some(m) => decode_bytes(m),
        None => None,
    }
}

/// The member `timestamp`: absent, or a positive integer.
pub open spec fn decode_timestamp(tree: JsonTree) -> Option<Option<u64>> {
    match tree.member("timestamp"@) {
        None => Some(None),
        Some(t) => match t.natural() {
            Some(n) => if n != 0 {
                Some(Some(n))
            } else {
                None
            },
            None => None,
        },
    }
}

/// The member `server_name`: a string that is a host name.
pub open spec fn decode_server_name(tree: JsonTree) -> Option<Seq<char>> {
    match tree.member("server_name"@) {
        Some(m) => match m.text() {
            Some(name) => if hostname::is_host_name(vstd::utf8::encode_utf8(name)) {
                Some(name)
            } else {
                None
            },
            None => None,
        },
        None => None,
    }
}

/// The session header: its server name, its handshake hash, its timestamp.
/// The first of them that does not decode is the error.
pub open spec fn decode_header(tree: JsonTree) -> Result<SessionHeaderView, ParseError> {
    match decode_server_name(tree) {
        None => Err(ParseError::ServerName),
        Some(server_name) => match decode_member_bytes(tree, "handshake_hash"@) {
            None => Err(ParseError::HandshakeHash),
            Some(handshake_hash) => match decode_timestamp(tree) {
                None => Err(ParseError::Timestamp),
                Some(timestamp) => Ok(SessionHeaderView { server_name, handshake_hash, timestamp }),
            },
        },
    }
}

/// A path step: an object with the sibling's hash under `sibling` and its
/// side under `left`.
pub open spec fn decode_step(tree: JsonTree) -> Option<PathStepView> {
    match decode_member_bytes(tree, "sibling"@) {
        Some(sibling) => match tree.member("left"@) {
            Some(side) => match side.truth() {
                Some(sibling_on_left) => Some(PathStepView { sibling, sibling_on_left }),
                None => None,
            },
            None => None,
        },
        None => None,
    }
}

/// The member `path`: absent, which stands for no steps, or an array of
/// steps.
pub open spec fn decode_path(tree: JsonTree) -> Option<Seq<PathStepView>> {
    match tree.member("path"@) {
        None => Some(Seq::empty()),
        Some(m) => match m.items() {
            Some(items) => decode_step_items(items),
            None => None,
        },
    }
}

/// Every element as a path step, if every element is one.
pub open spec fn decode_step_items(items: Seq<JsonTree>) -> Option<Seq<PathStepView>> {
    if forall|i: int| 0 <= i < items.len() ==> (#[trigger] decode_step(items[i])) is Some {
        Some(Seq::new(items.len(), |i: int| decode_step(items[i])->0))
    } else {
        None
    }
}

/// The member `empty`: absent, which stands for false, or a boolean.
pub open spec fn decode_empty_flag(tree: JsonTree) -> Option<bool> {
    match tree.member("empty"@) {
        None => Some(false),
        Some(m) => m.truth(),
    }
}

/// The member under `key` as an integer from 0 below 2^64.
pub open spec fn decode_member_natural(tree: JsonTree, key: Seq<char>) -> Option<u64> {
    match tree.member(key) {
        Some(m) => m.natural(),
        None => None,
    }
}

/// A range: an object with `start` and `end`, and optionally `empty` and
/// `path`.
pub open spec fn decode_range(tree: JsonTree) -> Option<DisclosedRangeView> {
    match decode_member_natural(tree, "start"@) {
        Some(start) => match decode_member_natural(tree, "end"@) {
            Some(end) => match decode_empty_flag(tree) {
                Some(declared_empty) => match decode_path(tree) {
                    Some(path) => Some(DisclosedRangeView { start, end, declared_empty, path }),
                    None => None,
                },
                None => None,
            },
            None => None,
        },
        None => None,
    }
}

/// The member `ranges`: an array of ranges.
pub open spec fn decode_ranges(tree: JsonTree) -> Option<Seq<DisclosedRangeView>> {
    match tree.member("ranges"@) {
        Some(m) => match m.items() {
            Some(items) => decode_range_items(items),
            None => None,
        },
        None => None,
    }
}

/// Every element as a range, if every element is one.
pub open spec fn decode_range_items(items: Seq<JsonTree>) -> Option<Seq<DisclosedRangeView>> {
    if forall|i: int| 0 <= i < items.len() ==> (#[trigger] decode_range(items[i])) is Some {
        Some(Seq::new(items.len(), |i: int| decode_range(items[i])->0))
    } else {
        None
    }
}

/// The transcript proof. The logical transcript is what was sent followed by
/// what was received.
pub open spec fn decode_proof(tree: JsonTree) -> Result<TranscriptProofView, ParseError> {
    match decode_member_bytes(tree, "sent"@) {
        None => Err(ParseError::Sent),
        Some(sent) => match decode_member_bytes(tree, "received"@) {
            None => Err(ParseError::Received),
            Some(received) => match decode_ranges(tree) {
                None => Err(ParseError::Ranges),
                Some(ranges) => Ok(
                    TranscriptProofView { data: sent + received, sent_len: sent.len(), ranges },
                ),
            },
        },
    }
}

/// The signature: a bare array of bytes, whose key the provider implies, or
/// an object that embeds the key.
pub open spec fn decode_signature(tree: JsonTree) -> Option<NotarySignatureView> {
    if tree.items() is Some {
        match decode_bytes(tree) {
            Some(bytes) => Some(NotarySignatureView { bytes, public_key: Seq::empty() }),
            None => None,
        }
    } else {
        match decode_member_bytes(tree, "bytes"@) {
            Some(bytes) => match decode_member_bytes(tree, "public_key"@) {
                Some(public_key) => Some(NotarySignatureView { bytes, public_key }),
                None => None,
            },
            None => None,
        }
    }
}

/// The presentation that a JSON tree holds. The three members are looked for
/// first, then decoded in the order header, proof, signature; the first
/// failure is the error.
pub open spec fn decode_presentation(tree: JsonTree) -> Result<PresentationView, ParseError> {
    match tree.member("session_header"@) {
        None => Err(ParseError::MissingSessionHeader),
        Some(header_tree) => match tree.member("transcript_proof"@) {
            None => Err(ParseError::MissingTranscriptProof),
            Some(proof_tree) => match tree.member("signature"@) {
                None => Err(ParseError::MissingSignature),
                Some(signature_tree) => match decode_header(header_tree) {
                    Err(e) => Err(e),
                    Ok(session_header) => match decode_proof(proof_tree) {
                        Err(e) => Err(e),
                        Ok(transcript_proof) => match decode_signature(signature_tree) {
                            None => Err(ParseError::Signature),
                            Some(signature) => Ok(
                                PresentationView { session_header, transcript_proof, signature },
                            ),
                        },
                    },
                },
            },
        },
    }
}

/// The presentation that a text holds.
pub open spec fn presentation_of(text: Seq<char>) -> Result<PresentationView, ParseError> {
    match json::json_document(text) {
        None => Err(ParseError::Syntax),
        Some(tree) => decode_presentation(tree),
    }
}

/// Every presentation that a text holds is well formed.
pub proof fn law_parsed_presentations_are_well_formed(text: Seq<char>)
    requires
        presentation_of(text) is Ok,
    ensures
        presentation_of(text)->Ok_0.wf(),
{
}

/// Whether a decoded value is the view of what was read.
pub open spec fn read_as(read: Option<Vec<u8>>, decoded: Option<Seq<u8>>) -> bool {
    match read {
        Some(v) => decoded == Some(v@),
        None => decoded is None,
    }
}

/// Reads an array of bytes.
fn read_bytes(value: &serde_json::Value) -> (bytes: Option<Vec<u8>>)
    ensures
        read_as(bytes, decode_bytes(json::json_tree(*value))),
{
    let items = match value.as_array() {
        Some(items) => items,
        None => {
            return None;
        },
    };
    let ghost trees = json::json_trees(items@);
    let mut out: Vec<u8> = Vec::new();
    let mut i: usize = 0;
    while i < items.len()
        invariant
            0 <= i <= items.len(),
            trees == json::json_trees(items@),
            json::json_tree(*value).items() == Some(trees),
            out@.len() == i,
            forall|j: int| 0 <= j < i ==> (#[trigger] decode_byte(trees[j])) == Some(out@[j]),
        decreases items.len() - i,
    {
        match items[i].as_u64() {
            Some(n) => {
                if n > 255 {
                    assert(decode_byte(trees[i as int]) is None);
                    return None;
                }
                out.push(n as u8);
            },
            None => {
                assert(decode_byte(trees[i as int]) is None);
                return None;
            },
        }
        i = i + 1;
    }
    assert(out@ =~= Seq::new(trees.len(), |i: int| decode_byte(trees[i])->0));
    Some(out)
}

/// Reads the member under `key` as an array of bytes.
fn read_member_bytes(value: &serde_json::Value, key: &str) -> (bytes: Option<Vec<u8>>)
    ensures
        read_as(bytes, decode_member_bytes(json::json_tree(*value), key@)),
{
    match json::json_member(value, key) {
        Some(m) => read_bytes(m),
        None => None,
    }
}

/// Reads the member under `key` as an unsigned integer.
fn read_member_natural(value: &serde_json::Value, key: &str) -> (n: Option<u64>)
    ensures
        n == decode_member_natural(json::json_tree(*value), key@),
{
    match json::json_member(value, key) {
        Some(m) => m.as_u64(),
        None => None,
    }
}

/// Reads the session header.
fn read_header(value: &serde_json::Value) -> (header: Result<SessionHeader, ParseError>)
    ensures
        match header {
            Ok(h) => decode_header(json::json_tree(*value)) == Ok::<SessionHeaderView, ParseError>(
                h@,
            ),
            Err(e) => decode_header(json::json_tree(*value)) == Err::<
                SessionHeaderView,
                ParseError,
            >(e),
        },
{
    let name = match json::json_member(value, "server_name") {
        Some(m) => match m.as_str() {
            Some(s) => s,
            None => {
                return Err(ParseError::ServerName);
            },
        },
        None => {
            return Err(ParseError::ServerName);
        },
    };
    if !hostname::is_valid_host_name(name.as_bytes()) {
        return Err(ParseError::ServerName);
    }
    let handshake_hash = match read_member_bytes(value, "handshake_hash") {
        Some(h) => h,
        None => {
            return Err(ParseError::HandshakeHash);
        },
    };
    let timestamp = match json::json_member(value, "timestamp") {
        None => None,
        Some(t) => match t.as_u64() {
            Some(n) => {
                if n == 0 {
                    return Err(ParseError::Timestamp);
                }
                Some(n)
            },
            None => {
                return Err(ParseError::Timestamp);
            },
        },
    };
    Ok(SessionHeader { server_name: String::from_str(name), handshake_hash, timestamp })
}

/// Reads one step of an authentication path.
fn read_step(value: &serde_json::Value) -> (step: Option<PathStep>)
    ensures
        match step {
            Some(s) => decode_step(json::json_tree(*value)) == Some(s@),
            None => decode_step(json::json_tree(*value)) is None,
        },
{
    let sibling = match read_member_bytes(value, "sibling") {
        Some(b) => b,
        None => {
            return None;
        },
    };
    match json::json_member(value, "left") {
        Some(m) => match m.as_bool() {
            Some(sibling_on_left) => Some(PathStep { sibling, sibling_on_left }),
            None => None,
        },
        None => None,
    }
}

/// Reads the authentication path of a range, if it has one.
fn read_path(value: &serde_json::Value) -> (path: Option<Vec<PathStep>>)
    ensures
        match path {
            Some(p) => decode_path(json::json_tree(*value)) == Some(
                crate::presentation::path_view(p@),
            ),
            None => decode_path(json::json_tree(*value)) is None,
        },
{
    let member = match json::json_member(value, "path") {
        Some(m) => m,
        None => {
            let empty: Vec<PathStep> = Vec::new();
            assert(crate::presentation::path_view(empty@) =~= Seq::empty());
            return Some(empty);
        },
    };
    let items = match member.as_array() {
        Some(items) => items,
        None => {
            return None;
        },
    };
    let ghost trees = json::json_trees(items@);
    let mut out: Vec<PathStep> = Vec::new();
    let mut i: usize = 0;
    while i < items.len()
        invariant
            0 <= i <= items.len(),
            trees == json::json_trees(items@),
            json::json_tree(*value).member("path"@) == Some(json::json_tree(*member)),
            json::json_tree(*member).items() == Some(trees),
            out@.len() == i,
            forall|j: int| 0 <= j < i ==> (#[trigger] decode_step(trees[j])) == Some(out@[j]@),
        decreases items.len() - i,
    {
        match read_step(&items[i]) {
            Some(step) => {
                out.push(step);
            },
            None => {
                assert(decode_step(trees[i as int]) is None);
                return None;
            },
        }
        i = i + 1;
    }
    assert(crate::presentation::path_view(out@) =~= Seq::new(
        trees.len(),
        |i: int| decode_step(trees[i])->0,
    ));
    Some(out)
}

/// Reads one range.
fn read_range(value: &serde_json::Value) -> (range: Option<DisclosedRange>)
    ensures
        match range {
            Some(r) => decode_range(json::json_tree(*value)) == Some(r@),
            None => decode_range(json::json_tree(*value)) is None,
        },
{
    let start = match read_member_natural(value, "start") {
        Some(n) => n,
        None => {
            return None;
        },
    };
    let end = match read_member_natural(value, "end") {
        Some(n) => n,
        None => {
            return None;
        },
    };
    let declared_empty = match json::json_member(value, "empty") {
        None => false,
        Some(m) => match m.as_bool() {
            Some(b) => b,
            None => {
                return None;
            },
        },
    };
    match read_path(value) {
        Some(path) => Some(DisclosedRange { start, end, declared_empty, path }),
        None => None,
    }
}

/// Reads the ranges of a transcript proof.
fn read_ranges(value: &serde_json::Value) -> (ranges: Option<Vec<DisclosedRange>>)
    ensures
        match ranges {
            Some(r) => decode_ranges(json::json_tree(*value)) == Some(
                crate::presentation::ranges_view(r@),
            ),
            None => decode_ranges(json::json_tree(*value)) is None,
        },
{
    let member = match json::json_member(value, "ranges") {
        Some(m) => m,
        None => {
            return None;
        },
    };
    let items = match member.as_array() {
        Some(items) => items,
        None => {
            return None;
        },
    };
    let ghost trees = json::json_trees(items@);
    let mut out: Vec<DisclosedRange> = Vec::new();
    let mut i: usize = 0;
    while i < items.len()
        invariant
            0 <= i <= items.len(),
            trees == json::json_trees(items@),
            json::json_tree(*value).member("ranges"@) == Some(json::json_tree(*member)),
            json::json_tree(*member).items() == Some(trees),
            out@.len() == i,
            forall|j: int| 0 <= j < i ==> (#[trigger] decode_range(trees[j])) == Some(out@[j]@),
        decreases items.len() - i,
    {
        match read_range(&items[i]) {
            Some(range) => {
                out.push(range);
            },
            None => {
                assert(decode_range(trees[i as int]) is None);
                return None;
            },
        }
        i = i + 1;
    }
    assert(crate::presentation::ranges_view(out@) =~= Seq::new(
        trees.len(),
        |i: int| decode_range(trees[i])->0,
    ));
    Some(out)
}

/// Reads the transcript proof.
fn read_proof(value: &serde_json::Value) -> (read: Result<TranscriptProof, ParseError>)
    ensures
        match read {
            Ok(p) => decode_proof(json::json_tree(*value)) == Ok::<TranscriptProofView, ParseError>(
                p@,
            ) && p@.wf(),
            Err(e) => decode_proof(json::json_tree(*value)) == Err::<
                TranscriptProofView,
                ParseError,
            >(e),
        },
{
    let mut data = match read_member_bytes(value, "sent") {
        Some(b) => b,
        None => {
            return Err(ParseError::Sent);
        },
    };
    let sent_len = data.len();
    let mut received = match read_member_bytes(value, "received") {
        Some(b) => b,
        None => {
            return Err(ParseError::Received);
        },
    };
    let ranges = match read_ranges(value) {
        Some(r) => r,
        None => {
            return Err(ParseError::Ranges);
        },
    };
    data.append(&mut received);
    Ok(TranscriptProof { data, sent_len, ranges })
}

/// Reads the signature, bare or with its key.
fn read_signature(value: &serde_json::Value) -> (signature: Option<NotarySignature>)
    ensures
        match signature {
            Some(s) => decode_signature(json::json_tree(*value)) == Some(s@),
            None => decode_signature(json::json_tree(*value)) is None,
        },
{
    if value.as_array().is_some() {
        match read_bytes(value) {
            Some(bytes) => Some(NotarySignature { bytes, public_key: Vec::new() }),
            None => None,
        }
    } else {
        let bytes = match read_member_bytes(value, "bytes") {
            Some(b) => b,
            None => {
                return None;
            },
        };
        match read_member_bytes(value, "public_key") {
            Some(public_key) => Some(NotarySignature { bytes, public_key }),
            None => None,
        }
    }
}

/// Reads a presentation out of a parsed JSON value.
pub fn read_presentation(value: &serde_json::Value) -> (presentation: Result<
    Presentation,
    ParseError,
>)
    ensures
        match presentation {
            Ok(p) => decode_presentation(json::json_tree(*value)) == Ok::<
                PresentationView,
                ParseError,
            >(p@) && p@.wf(),
            Err(e) => decode_presentation(json::json_tree(*value)) == Err::<
                PresentationView,
                ParseError,
            >(e),
        },
{
    let header_value = match json::json_member(value, "session_header") {
        Some(m) => m,
        None => {
            return Err(ParseError::MissingSessionHeader);
        },
    };
    let proof_value = match json::json_member(value, "transcript_proof") {
        Some(m) => m,
        None => {
            return Err(ParseError::MissingTranscriptProof);
        },
    };
    let signature_value = match json::json_member(value, "signature") {
        Some(m) => m,
        None => {
            return Err(ParseError::MissingSignature);
        },
    };
    let session_header = match read_header(header_value) {
        Ok(h) => h,
        Err(e) => {
            return Err(e);
        },
    };
    let transcript_proof = match read_proof(proof_value) {
        Ok(p) => p,
        Err(e) => {
            return Err(e);
        },
    };
    match read_signature(signature_value) {
        Some(signature) => Ok(Presentation { session_header, transcript_proof, signature }),
        None => Err(ParseError::Signature),
    }
}

/// Parses a serialized presentation. Nothing is defaulted but what the
/// format leaves optional: the header's `timestamp`, a range's `empty` and
/// `path`, and the key beside the signature.
pub fn parse(text: &str) -> (presentation: Result<Presentation, ParseError>)
    ensures
        match presentation {
            Ok(p) => presentation_of(text@) == Ok::<PresentationView, ParseError>(p@) && p@.wf(),
            Err(e) => presentation_of(text@) == Err::<PresentationView, ParseError>(e),
        },
{
    match json::parse_json(text) {
        Some(value) => read_presentation(&value),
        None => Err(ParseError::Syntax),
    }
}

} // verus!
