//! What holds of the pipeline as a whole, proved from the contracts of its
//! stages.

use crate::authentication;
use crate::codec;
use crate::codec::ParseError;
use crate::commitment;
use crate::commitment::SignatureError;
use crate::digest;
use crate::json::JsonTree;
use crate::presentation::PresentationView;
use crate::presentation::TranscriptProofView;
use crate::provider::CryptoProvider;
use crate::provider::FixedProvider;
use crate::report;
use crate::report::VerificationResult;
use crate::report::VerifyError;
use crate::transcript;
use vstd::prelude::*;

verus! {

/// Whether `text` parses, and to `presentation`.
pub open spec fn parses_to(text: Seq<char>, presentation: PresentationView) -> bool {
    codec::presentation_of(text) == Ok::<PresentationView, ParseError>(presentation)
}

/// Whether the provider accepts the signature of `presentation` over the
/// canonical bytes of its header.
pub open spec fn signature_accepted<P: CryptoProvider>(
    provider: &P,
    presentation: PresentationView,
) -> bool {
    provider.accepts(
        commitment::canonical_header(presentation.session_header),
        presentation.signature.bytes,
        presentation.signature.public_key,
    )
}

/// Whether range `i` of `presentation` hashes, along its path, to the root
/// that the header commits to.
pub open spec fn range_authenticates<P: CryptoProvider>(
    provider: &P,
    presentation: PresentationView,
    i: int,
) -> bool {
    authentication::range_root(
        provider,
        presentation.transcript_proof.data,
        presentation.transcript_proof.ranges[i],
    ) == presentation.session_header.handshake_hash
}

/// A presentation with a signature that the provider accepts, and whose
/// ranges are all well shaped and authenticate against the committed root,
/// is reported valid, under the server name of its header and without an
/// error.
pub proof fn law_authentic_presentation_is_valid<P: CryptoProvider>(
    provider: &P,
    text: Seq<char>,
    presentation: PresentationView,
)
    requires
        parses_to(text, presentation),
        presentation.signature.bytes.len() > 0,
        signature_accepted(provider, presentation),
        forall|i: int|
            0 <= i < presentation.transcript_proof.ranges.len() ==> {
                &&& (#[trigger] authentication::structure_fault(presentation.transcript_proof, i))
                    is None
                &&& range_authenticates(provider, presentation, i)
            },
    ensures
        report::report(provider, text).valid,
        report::report(provider, text).server_name == presentation.session_header.server_name,
        report::report(provider, text).error is None,
{
    let root = presentation.session_header.handshake_hash;
    assert forall|i: int| 0 <= i < presentation.transcript_proof.ranges.len() implies (
    #[trigger] authentication::range_fault(provider, presentation.transcript_proof, root, i))
        is None by {
        assert(authentication::structure_fault(presentation.transcript_proof, i) is None);
    }
    authentication::lemma_no_fault_means_all_in_order(
        provider,
        presentation.transcript_proof,
        root,
        presentation.transcript_proof.ranges.len(),
    );
}

/// A presentation whose signature the provider does not accept is reported
/// invalid with the message of a signature error, whatever its transcript
/// proof holds.
pub proof fn law_bad_signature_is_refused<P: CryptoProvider>(
    provider: &P,
    text: Seq<char>,
    presentation: PresentationView,
)
    requires
        parses_to(text, presentation),
        !signature_accepted(provider, presentation),
    ensures
        !report::report(provider, text).valid,
        report::report(provider, text).error == Some(
            report::error_text(
                VerifyError::Signature(
                    if presentation.signature.bytes.len() == 0 {
                        SignatureError::Empty
                    } else {
                        SignatureError::Rejected
                    },
                ),
            ),
        ),
{
}

/// The fixed provider refuses every signature but the one it holds: change
/// one byte of an accepted signature and it is refused.
pub proof fn law_fixed_provider_refuses_tampering(
    provider: &FixedProvider,
    message: Seq<u8>,
    signature: Seq<u8>,
    public_key: Seq<u8>,
    at: int,
    byte: u8,
)
    requires
        provider.accepts(message, signature, public_key),
        0 <= at < signature.len(),
        byte != signature[at],
    ensures
        !provider.accepts(message, signature.update(at, byte), public_key),
{
    assert(signature.update(at, byte)[at] != provider.signature@[at]);
}

/// A presentation with a range whose bytes and path do not hash to the
/// committed root is reported invalid, whatever holds of its other ranges.
pub proof fn law_one_bad_range_fails_all<P: CryptoProvider>(
    provider: &P,
    text: Seq<char>,
    presentation: PresentationView,
    i: int,
)
    requires
        parses_to(text, presentation),
        0 <= i < presentation.transcript_proof.ranges.len(),
        !range_authenticates(provider, presentation, i),
    ensures
        !report::report(provider, text).valid,
        report::report(provider, text).error is Some,
{
    let root = presentation.session_header.handshake_hash;
    authentication::lemma_no_fault_means_all_in_order(
        provider,
        presentation.transcript_proof,
        root,
        presentation.transcript_proof.ranges.len(),
    );
    assert(authentication::range_fault(provider, presentation.transcript_proof, root, i) is Some);
}

/// Verifying the same text twice with the same provider gives the same
/// report: whatever two runs return, the results agree.
pub proof fn law_verify_is_idempotent<P: CryptoProvider>(
    provider: &P,
    text: Seq<char>,
    first: VerificationResult,
    second: VerificationResult,
)
    requires
        first@ == report::report(provider, text),
        second@ == report::report(provider, text),
    ensures
        first@ == second@,
{
}

/// The hash in a report is the SHA-256 digest, in hexadecimal, of the bytes
/// of the text that was handed in, whether or not the text parses and
/// whatever the verdict.
pub proof fn law_proof_hash_is_content_hash<P: CryptoProvider>(provider: &P, text: Seq<char>)
    ensures
        report::report(provider, text).proof_hash == digest::hex_text(
            digest::sha256(vstd::utf8::encode_utf8(text)),
        ),
{
}

/// A presentation that discloses no range, and whose signature is in order,
/// is reported valid with null data and an empty list of ranges.
pub proof fn law_full_redaction_is_valid<P: CryptoProvider>(
    provider: &P,
    text: Seq<char>,
    presentation: PresentationView,
)
    requires
        parses_to(text, presentation),
        presentation.transcript_proof.ranges.len() == 0,
        presentation.signature.bytes.len() > 0,
        signature_accepted(provider, presentation),
    ensures
        report::report(provider, text).valid,
        report::report(provider, text).data == JsonTree::Null,
        report::report(provider, text).redacted_ranges == Some(Seq::<(usize, usize)>::empty()),
{
    assert(authentication::first_fault(
        provider,
        presentation.transcript_proof,
        presentation.session_header.handshake_hash,
        0,
    ) is None);
    assert(authentication::disclosed_ranges(presentation.transcript_proof) =~= Seq::empty());
}

/// A report carries an error exactly when it is not valid, and a report that
/// is not valid passes nothing of the presentation on.
pub proof fn law_reports_fail_closed<P: CryptoProvider>(provider: &P, text: Seq<char>)
    ensures
        report::report(provider, text).valid <==> report::report(provider, text).error is None,
        !report::report(provider, text).valid ==> {
            &&& report::report(provider, text).server_name == Seq::<char>::empty()
            &&& report::report(provider, text).time == 0
            &&& report::report(provider, text).data == JsonTree::Null
            &&& report::report(provider, text).notary_pubkey == Seq::<char>::empty()
            &&& report::report(provider, text).redacted_ranges is None
        },
{
}

/// A text that does not parse is reported invalid with the message of its
/// parse error, whatever the provider would say.
pub proof fn law_unparsed_text_is_refused<P: CryptoProvider>(
    provider: &P,
    text: Seq<char>,
    e: ParseError,
)
    requires
        codec::presentation_of(text) == Err::<PresentationView, ParseError>(e),
    ensures
        !report::report(provider, text).valid,
        report::report(provider, text).error == Some(report::error_text(VerifyError::Parse(e))),
{
}

/// Where a transcript proof passes, its ranges lie inside the transcript,
/// none ends before it starts, and each starts no earlier than the one
/// before it ends: they are in ascending order and do not overlap.
pub proof fn law_proven_ranges_are_ordered<P: CryptoProvider>(
    provider: &P,
    transcript_proof: TranscriptProofView,
    root: Seq<u8>,
    i: int,
    j: int,
)
    requires
        authentication::transcript_verdict(provider, transcript_proof, root) is Ok,
        0 <= i <= j < transcript_proof.ranges.len(),
    ensures
        transcript_proof.ranges[i].start <= transcript_proof.ranges[i].end
            <= transcript_proof.data.len(),
        i < j ==> transcript_proof.ranges[i].end <= transcript_proof.ranges[j].start,
    decreases j - i,
{
    authentication::lemma_no_fault_means_all_in_order(
        provider,
        transcript_proof,
        root,
        transcript_proof.ranges.len(),
    );
    assert(authentication::range_fault(provider, transcript_proof, root, i) is None);
    assert(authentication::range_fault(provider, transcript_proof, root, j) is None);
    if i < j {
        law_proven_ranges_are_ordered(provider, transcript_proof, root, i, j - 1);
        assert(authentication::range_fault(provider, transcript_proof, root, j - 1) is None);
    }
}

/// The reconstructed transcript holds nothing of a byte that no range
/// covers: two transcripts that agree on the covered bytes reconstruct to
/// the same cells, and the cell of a byte that is not covered is empty.
pub proof fn law_withheld_bytes_leave_no_trace(
    ranges: Seq<(usize, usize)>,
    first: Seq<u8>,
    second: Seq<u8>,
)
    requires
        first.len() == second.len(),
        forall|i: int|
            0 <= i < first.len() && transcript::covered(ranges, i) ==> first[i] == second[i],
    ensures
        transcript::disclose(ranges, first) == transcript::disclose(ranges, second),
        forall|i: int|
            0 <= i < first.len() && !transcript::covered(ranges, i) ==> transcript::disclose(
                ranges,
                first,
            )[i] is None,
{
    assert(transcript::disclose(ranges, first) =~= transcript::disclose(ranges, second));
}

/// Whether some range of the transcript proof covers position `i`.
pub open spec fn disclosed_at(transcript_proof: TranscriptProofView, i: int) -> bool {
    exists|k: int|
        0 <= k < transcript_proof.ranges.len() && (#[trigger] transcript_proof.ranges[k]).start
            <= i < transcript_proof.ranges[k].end
}

/// Whether two presentations differ at most in bytes that no range covers.
pub open spec fn same_but_for_withheld_bytes(first: PresentationView, second: PresentationView) -> bool {
    &&& first.session_header == second.session_header
    &&& first.signature == second.signature
    &&& first.transcript_proof.ranges == second.transcript_proof.ranges
    &&& first.transcript_proof.sent_len == second.transcript_proof.sent_len
    &&& first.transcript_proof.data.len() == second.transcript_proof.data.len()
    &&& forall|i: int|
        0 <= i < first.transcript_proof.data.len() && disclosed_at(first.transcript_proof, i)
            ==> first.transcript_proof.data[i] == second.transcript_proof.data[i]
}

/// Presentations that differ only in withheld bytes have the same fault, or
/// none, at each range.
proof fn lemma_same_range_faults<P: CryptoProvider>(
    provider: &P,
    first: PresentationView,
    second: PresentationView,
    k: int,
)
    requires
        same_but_for_withheld_bytes(first, second),
        0 <= k < first.transcript_proof.ranges.len(),
    ensures
        authentication::range_fault(
            provider,
            first.transcript_proof,
            first.session_header.handshake_hash,
            k,
        ) == authentication::range_fault(
            provider,
            second.transcript_proof,
            second.session_header.handshake_hash,
            k,
        ),
{
    let range = first.transcript_proof.ranges[k];
    if authentication::structure_fault(first.transcript_proof, k) is None {
        assert forall|i: int| range.start <= i < range.end implies first.transcript_proof.data[i]
            == second.transcript_proof.data[i] by {
            assert(disclosed_at(first.transcript_proof, i));
        }
        assert(first.transcript_proof.data.subrange(range.start as int, range.end as int)
            =~= second.transcript_proof.data.subrange(range.start as int, range.end as int));
    }
}

/// Presentations that differ only in withheld bytes have the same first
/// fault, or none.
proof fn lemma_same_first_fault<P: CryptoProvider>(
    provider: &P,
    first: PresentationView,
    second: PresentationView,
    upto: nat,
)
    requires
        same_but_for_withheld_bytes(first, second),
        upto <= first.transcript_proof.ranges.len(),
    ensures
        authentication::first_fault(
            provider,
            first.transcript_proof,
            first.session_header.handshake_hash,
            upto,
        ) == authentication::first_fault(
            provider,
            second.transcript_proof,
            second.session_header.handshake_hash,
            upto,
        ),
    decreases upto,
{
    if upto > 0 {
        lemma_same_first_fault(provider, first, second, (upto - 1) as nat);
        lemma_same_range_faults(provider, first, second, upto - 1);
    }
}

/// What is withheld has no part in the judgement: presentations that differ
/// only in bytes that no range covers are judged alike, in the verdict, in
/// the ranges and in the data.
pub proof fn law_withheld_bytes_do_not_matter<P: CryptoProvider>(
    provider: &P,
    first: PresentationView,
    second: PresentationView,
)
    requires
        same_but_for_withheld_bytes(first, second),
        first.transcript_proof.data.len() <= usize::MAX,
    ensures
        report::judgement(provider, first) == report::judgement(provider, second),
{
    let root = first.session_header.handshake_hash;
    let n = first.transcript_proof.ranges.len();
    lemma_same_first_fault(provider, first, second, n);
    if report::judgement(provider, first) is Ok {
        let ranges = authentication::disclosed_ranges(first.transcript_proof);
        assert(ranges =~= authentication::disclosed_ranges(second.transcript_proof));
        authentication::lemma_no_fault_means_all_in_order(
            provider,
            first.transcript_proof,
            root,
            n,
        );
        assert forall|i: int|
            0 <= i < first.transcript_proof.data.len() && transcript::covered(
                ranges,
                i,
            ) implies first.transcript_proof.data[i] == second.transcript_proof.data[i] by {
            let m = choose|m: int|
                0 <= m < ranges.len() && m < ranges.len() && (#[trigger] ranges[m]).0 <= i
                    < ranges[m].1;
            assert(authentication::range_fault(provider, first.transcript_proof, root, m) is None);
            assert(first.transcript_proof.ranges[m].start <= i < first.transcript_proof.ranges[m].end);
            assert(disclosed_at(first.transcript_proof, i));
        }
        law_withheld_bytes_leave_no_trace(
            ranges,
            first.transcript_proof.data,
            second.transcript_proof.data,
        );
    }
}

} // verus!
