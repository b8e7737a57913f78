//! The presentation and its parts, as held in memory after parsing.

use crate::hostname;
use vstd::prelude::*;

verus! {

/// What the notary signed: the server's name, the commitment to the session
/// transcript, and the session time in seconds since the epoch, if stated.
/// The commitment is the root that every disclosed range must hash to; its
/// length is that of the provider's hashes.
#[derive(Debug, Clone, PartialEq, Eq)]
pub struct SessionHeader {
    pub server_name: String,
    pub handshake_hash: Vec<u8>,
    pub timestamp: Option<u64>,
}

/// What a `SessionHeader` holds, as mathematical values.
pub struct SessionHeaderView {
    pub server_name: Seq<char>,
    pub handshake_hash: Seq<u8>,
    pub timestamp: Option<u64>,
}

impl View for SessionHeader {
    type V = SessionHeaderView;

    open spec fn view(&self) -> SessionHeaderView {
        SessionHeaderView {
            server_name: self.server_name@,
            handshake_hash: self.handshake_hash@,
            timestamp: self.timestamp,
        }
    }
}

impl SessionHeaderView {
    /// The server name is a host name, and a timestamp that is stated is not
    /// zero.
    pub open spec fn wf(self) -> bool {
        &&& hostname::is_host_name(vstd::utf8::encode_utf8(self.server_name))
        &&& self.timestamp != Some(0u64)
    }
}

/// One step of an authentication path: the sibling's hash and the side on
/// which it stands.
#[derive(Debug, Clone, PartialEq, Eq)]
pub struct PathStep {
    pub sibling: Vec<u8>,
    pub sibling_on_left: bool,
}

/// What a `PathStep` holds, as mathematical values.
pub struct PathStepView {
    pub sibling: Seq<u8>,
    pub sibling_on_left: bool,
}

impl View for PathStep {
    type V = PathStepView;

    open spec fn view(&self) -> PathStepView {
        PathStepView { sibling: self.sibling@, sibling_on_left: self.sibling_on_left }
    }
}

/// The views of a run of path steps, in order.
pub open spec fn path_view(path: Seq<PathStep>) -> Seq<PathStepView> {
    Seq::new(path.len(), |i: int| path[i]@)
}

/// A disclosed range of the logical transcript, from `start` up to but not
/// including `end`, with the path that authenticates it. A range of no bytes
/// must say so in `declared_empty`.
#[derive(Debug, Clone, PartialEq, Eq)]
pub struct DisclosedRange {
    pub start: u64,
    pub end: u64,
    pub declared_empty: bool,
    pub path: Vec<PathStep>,
}

/// What a `DisclosedRange` holds, as mathematical values.
pub struct DisclosedRangeView {
    pub start: u64,
    pub end: u64,
    pub declared_empty: bool,
    pub path: Seq<PathStepView>,
}

impl View for DisclosedRange {
    type V = DisclosedRangeView;

    open spec fn view(&self) -> DisclosedRangeView {
        DisclosedRangeView {
            start: self.start,
            end: self.end,
            declared_empty: self.declared_empty,
            path: path_view(self.path@),
        }
    }
}

/// The views of a run of ranges, in order.
pub open spec fn ranges_view(ranges: Seq<DisclosedRange>) -> Seq<DisclosedRangeView> {
    Seq::new(ranges.len(), |i: int| ranges[i]@)
}

/// The transcript proof. `data` is the logical transcript, the bytes sent
/// followed by the bytes received; only what a disclosed range covers is
/// meaningful in it.
#[derive(Debug, Clone, PartialEq, Eq)]
pub struct TranscriptProof {
    pub data: Vec<u8>,
    pub sent_len: usize,
    pub ranges: Vec<DisclosedRange>,
}

/// What a `TranscriptProof` holds, as mathematical values.
pub struct TranscriptProofView {
    pub data: Seq<u8>,
    pub sent_len: nat,
    pub ranges: Seq<DisclosedRangeView>,
}

impl View for TranscriptProof {
    type V = TranscriptProofView;

    open spec fn view(&self) -> TranscriptProofView {
        TranscriptProofView {
            data: self.data@,
            sent_len: self.sent_len as nat,
            ranges: ranges_view(self.ranges@),
        }
    }
}

impl TranscriptProofView {
    /// The received part begins inside the transcript.
    pub open spec fn wf(self) -> bool {
        self.sent_len <= self.data.len()
    }
}

/// The notary's signature over the session header, with the notary's public
/// key where the presentation embeds it. An empty key is one that the
/// provider implies.
#[derive(Debug, Clone, PartialEq, Eq)]
pub struct NotarySignature {
    pub bytes: Vec<u8>,
    pub public_key: Vec<u8>,
}

/// What a `NotarySignature` holds, as mathematical values.
pub struct NotarySignatureView {
    pub bytes: Seq<u8>,
    pub public_key: Seq<u8>,
}

impl View for NotarySignature {
    type V = NotarySignatureView;

    open spec fn view(&self) -> NotarySignatureView {
        NotarySignatureView { bytes: self.bytes@, public_key: self.public_key@ }
    }
}

/// The artifact submitted for verification.
#[derive(Debug, Clone, PartialEq, Eq)]
pub struct Presentation {
    pub session_header: SessionHeader,
    pub transcript_proof: TranscriptProof,
    pub signature: NotarySignature,
}

/// What a `Presentation` holds, as mathematical values.
pub struct PresentationView {
    pub session_header: SessionHeaderView,
    pub transcript_proof: TranscriptProofView,
    pub signature: NotarySignatureView,
}

impl View for Presentation {
    type V = PresentationView;

    open spec fn view(&self) -> PresentationView {
        PresentationView {
            session_header: self.session_header@,
            transcript_proof: self.transcript_proof@,
            signature: self.signature@,
        }
    }
}

impl PresentationView {
    /// The header and the transcript proof are well formed. Whether the
    /// ranges are in order is for the transcript proof verifier to say.
    pub open spec fn wf(self) -> bool {
        self.session_header.wf() && self.transcript_proof.wf()
    }
}

impl Presentation {
    /// Whether this presentation is well formed, as every parsed one is.
    pub fn is_well_formed(&self) -> (ok: bool)
        ensures
            ok == self@.wf(),
    {
        hostname::is_valid_host_name(self.session_header.server_name.as_str().as_bytes())
            && match self.session_header.timestamp {
            Some(t) => t != 0,
            None => true,
        } && self.transcript_proof.sent_len <= self.transcript_proof.data.len()
    }
}

} // verus!
