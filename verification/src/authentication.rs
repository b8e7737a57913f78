//! The transcript proof verifier: every disclosed range must be in order and
//! must hash, along its authentication path, to the committed root.

use crate::bytes;
use crate::presentation::DisclosedRange;
use crate::presentation::DisclosedRangeView;
use crate::presentation::PathStep;
use crate::presentation::PathStepView;
use crate::presentation::TranscriptProof;
use crate::presentation::TranscriptProofView;
use crate::provider::CryptoProvider;
use vstd::prelude::*;

verus! {

/// What is wrong with one range.
#[derive(Debug, Clone, Copy, PartialEq, Eq, Structural)]
pub enum RangeFault {
    /// It ends before it starts.
    Inverted,
    /// It ends beyond the transcript.
    OutOfBounds,
    /// It has no bytes and does not declare so, or declares so and has some.
    EmptyFlag,
    /// It starts before the range listed before it ends.
    Overlap,
    /// Its bytes and path do not hash to the committed root.
    Unauthenticated,
}

/// The first range that is not in order, and what is wrong with it.
#[derive(Debug, Clone, Copy, PartialEq, Eq, Structural)]
pub struct ProofError {
    pub index: usize,
    pub fault: RangeFault,
}

/// What is hashed for a leaf: a zero byte, the range's bounds, its bytes.
pub open spec fn leaf_preimage(start: u64, end: u64, disclosed: Seq<u8>) -> Seq<u8> {
    seq![0u8] + bytes::be64(start) + bytes::be64(end) + disclosed
}

/// What is hashed for an inner node: a one byte, the framed left child, the
/// right child.
pub open spec fn node_preimage(left: Seq<u8>, right: Seq<u8>) -> Seq<u8> {
    seq![1u8] + bytes::framed(left) + right
}

/// The parent of `node` with the sibling that `step` gives.
pub open spec fn step_up<P: CryptoProvider>(provider: &P, node: Seq<u8>, step: PathStepView) -> Seq<
    u8,
> {
    if step.sibling_on_left {
        provider.digest(node_preimage(step.sibling, node))
    } else {
        provider.digest(node_preimage(node, step.sibling))
    }
}

/// The node reached from `node` by the steps of `path`, the first step first.
pub open spec fn climb<P: CryptoProvider>(
    provider: &P,
    node: Seq<u8>,
    path: Seq<PathStepView>,
) -> Seq<u8>
    decreases path.len(),
{
    if path.len() == 0 {
        node
    } else {
        step_up(provider, climb(provider, node, path.drop_last()), path.last())
    }
}

/// The root that a range's bytes and path hash to.
pub open spec fn range_root<P: CryptoProvider>(
    provider: &P,
    data: Seq<u8>,
    range: DisclosedRangeView,
) -> Seq<u8> {
    climb(
        provider,
        provider.digest(
            leaf_preimage(range.start, range.end, data.subrange(range.start as int, range.end as int)),
        ),
        range.path,
    )
}

/// What is wrong with the shape of range `i`, if anything.
pub open spec fn structure_fault(transcript: TranscriptProofView, i: int) -> Option<RangeFault> {
    let range = transcript.ranges[i];
    if range.start > range.end {
        Some(RangeFault::Inverted)
    } else if range.end > transcript.data.len() {
        Some(RangeFault::OutOfBounds)
    } else if (range.start == range.end) != range.declared_empty {
        Some(RangeFault::EmptyFlag)
    } else if i > 0 && transcript.ranges[i - 1].end > range.start {
        Some(RangeFault::Overlap)
    } else {
        None
    }
}

/// What is wrong with range `i`, if anything: its shape first, then its
/// authentication against `root`.
pub open spec fn range_fault<P: CryptoProvider>(
    provider: &P,
    transcript: TranscriptProofView,
    root: Seq<u8>,
    i: int,
) -> Option<RangeFault> {
    match structure_fault(transcript, i) {
        Some(fault) => Some(fault),
        None => if range_root(provider, transcript.data, transcript.ranges[i]) != root {
            Some(RangeFault::Unauthenticated)
        } else {
            None
        },
    }
}

/// The first fault among the ranges before `upto`.
pub open spec fn first_fault<P: CryptoProvider>(
    provider: &P,
    transcript: TranscriptProofView,
    root: Seq<u8>,
    upto: nat,
) -> Option<ProofError>
    decreases upto,
{
    if upto == 0 {
        None
    } else {
        match first_fault(provider, transcript, root, (upto - 1) as nat) {
            Some(e) => Some(e),
            None => match range_fault(provider, transcript, root, upto - 1) {
                Some(fault) => Some(ProofError { index: (upto - 1) as usize, fault }),
                None => None,
            },
        }
    }
}

/// The bounds of the ranges, in the order listed.
pub open spec fn disclosed_ranges(transcript: TranscriptProofView) -> Seq<(usize, usize)> {
    Seq::new(
        transcript.ranges.len(),
        |i: int| (transcript.ranges[i].start as usize, transcript.ranges[i].end as usize),
    )
}

/// The verdict on a transcript proof: the first fault, or the disclosed
/// ranges if there is none.
pub open spec fn transcript_verdict<P: CryptoProvider>(
    provider: &P,
    transcript: TranscriptProofView,
    root: Seq<u8>,
) -> Result<Seq<(usize, usize)>, ProofError> {
    match first_fault(provider, transcript, root, transcript.ranges.len()) {
        Some(e) => Err(e),
        None => Ok(disclosed_ranges(transcript)),
    }
}

/// A fault found among the first ranges stays the first fault however many
/// more ranges are looked at.
pub proof fn lemma_first_fault_stays<P: CryptoProvider>(
    provider: &P,
    transcript: TranscriptProofView,
    root: Seq<u8>,
    found: nat,
    upto: nat,
)
    requires
        found <= upto,
        first_fault(provider, transcript, root, found) is Some,
    ensures
        first_fault(provider, transcript, root, upto) == first_fault(
            provider,
            transcript,
            root,
            found,
        ),
    decreases upto,
{
    if found < upto {
        lemma_first_fault_stays(provider, transcript, root, found, (upto - 1) as nat);
    }
}

/// There is no fault before `upto` exactly when no range before `upto` has
/// one.
pub proof fn lemma_no_fault_means_all_in_order<P: CryptoProvider>(
    provider: &P,
    transcript: TranscriptProofView,
    root: Seq<u8>,
    upto: nat,
)
    ensures
        first_fault(provider, transcript, root, upto) is None <==> forall|i: int|
            0 <= i < upto ==> (#[trigger] range_fault(provider, transcript, root, i)) is None,
    decreases upto,
{
    if upto > 0 {
        lemma_no_fault_means_all_in_order(provider, transcript, root, (upto - 1) as nat);
    }
}

/// Whether `a` and `b` are a collision of the provider's hash: different
/// byte strings with the same hash.
pub open spec fn collides<P: CryptoProvider>(provider: &P, a: Seq<u8>, b: Seq<u8>) -> bool {
    a != b && provider.digest(a) == provider.digest(b)
}

/// Whether the provider's hash has a collision at all.
pub open spec fn has_collision<P: CryptoProvider>(provider: &P) -> bool {
    exists|a: Seq<u8>, b: Seq<u8>| collides(provider, a, b)
}

/// Whether every hash of the provider has a length that can be framed, as
/// every hash held in memory has.
pub open spec fn hashes_fit<P: CryptoProvider>(provider: &P) -> bool {
    forall|a: Seq<u8>| (#[trigger] provider.digest(a)).len() <= u64::MAX
}

/// Whether every sibling of a path has a length that can be framed, as every
/// sibling held in memory has.
pub open spec fn path_fits(path: Seq<PathStepView>) -> bool {
    forall|i: int| 0 <= i < path.len() ==> (#[trigger] path[i]).sibling.len() <= u64::MAX
}

/// Leaves of the same bounds with the same preimage hold the same bytes.
pub proof fn lemma_leaf_preimage_is_injective(
    start: u64,
    end: u64,
    first: Seq<u8>,
    second: Seq<u8>,
)
    requires
        leaf_preimage(start, end, first) == leaf_preimage(start, end, second),
    ensures
        first == second,
{
    bytes::lemma_be64_is_injective(start, start);
    bytes::lemma_be64_is_injective(end, end);
    let a = leaf_preimage(start, end, first);
    let b = leaf_preimage(start, end, second);
    assert(a.subrange(17, a.len() as int) =~= first);
    assert(b.subrange(17, b.len() as int) =~= second);
}

/// Inner nodes with the same preimage have the same children.
pub proof fn lemma_node_preimage_is_injective(
    left_a: Seq<u8>,
    right_a: Seq<u8>,
    left_b: Seq<u8>,
    right_b: Seq<u8>,
)
    requires
        left_a.len() <= u64::MAX,
        left_b.len() <= u64::MAX,
        node_preimage(left_a, right_a) == node_preimage(left_b, right_b),
    ensures
        left_a == left_b,
        right_a == right_b,
{
    let a = node_preimage(left_a, right_a);
    let b = node_preimage(left_b, right_b);
    assert(a.subrange(1, a.len() as int) =~= bytes::framed(left_a) + right_a);
    assert(b.subrange(1, b.len() as int) =~= bytes::framed(left_b) + right_b);
    bytes::lemma_framed_is_unambiguous(left_a, right_a, left_b, right_b);
}

/// Two different nodes that climb the same path to the same node show a
/// collision of the hash.
pub proof fn lemma_climb_binds_its_start<P: CryptoProvider>(
    provider: &P,
    first: Seq<u8>,
    second: Seq<u8>,
    path: Seq<PathStepView>,
)
    requires
        hashes_fit(provider),
        path_fits(path),
        first.len() <= u64::MAX,
        second.len() <= u64::MAX,
        climb(provider, first, path) == climb(provider, second, path),
    ensures
        first == second || has_collision(provider),
    decreases path.len(),
{
    if path.len() > 0 {
        let below = path.drop_last();
        let step = path.last();
        let a = climb(provider, first, below);
        let b = climb(provider, second, below);
        lemma_climb_fits(provider, first, below);
        lemma_climb_fits(provider, second, below);
        assert(step == path[path.len() - 1]);
        let preimage_a = if step.sibling_on_left {
            node_preimage(step.sibling, a)
        } else {
            node_preimage(a, step.sibling)
        };
        let preimage_b = if step.sibling_on_left {
            node_preimage(step.sibling, b)
        } else {
            node_preimage(b, step.sibling)
        };
        assert(provider.digest(preimage_a) == provider.digest(preimage_b));
        if preimage_a != preimage_b {
            assert(collides(provider, preimage_a, preimage_b));
        } else {
            if step.sibling_on_left {
                lemma_node_preimage_is_injective(step.sibling, a, step.sibling, b);
            } else {
                lemma_node_preimage_is_injective(a, step.sibling, b, step.sibling);
            }
            assert(path_fits(below)) by {
                assert forall|i: int| 0 <= i < below.len() implies (
                #[trigger] below[i]).sibling.len() <= u64::MAX by {
                    assert(below[i] == path[i]);
                }
            }
            lemma_climb_binds_its_start(provider, first, second, below);
        }
    }
}

/// A node reached by climbing has a length that can be framed, if the node
/// that the climb began at has one.
pub proof fn lemma_climb_fits<P: CryptoProvider>(
    provider: &P,
    node: Seq<u8>,
    path: Seq<PathStepView>,
)
    requires
        hashes_fit(provider),
        node.len() <= u64::MAX,
    ensures
        climb(provider, node, path).len() <= u64::MAX,
{
    if path.len() > 0 {
        let below = climb(provider, node, path.drop_last());
        assert(climb(provider, node, path) == step_up(provider, below, path.last()));
    }
}

/// The committed root binds the bytes of a range: two transcripts that
/// authenticate the same range, along the same path, against the same root
/// hold the same bytes in that range, or else they show a collision of the
/// hash.
pub proof fn law_root_binds_disclosed_bytes<P: CryptoProvider>(
    provider: &P,
    first: Seq<u8>,
    second: Seq<u8>,
    range: DisclosedRangeView,
)
    requires
        hashes_fit(provider),
        path_fits(range.path),
        range_root(provider, first, range) == range_root(provider, second, range),
    ensures
        has_collision(provider) || first.subrange(range.start as int, range.end as int)
            == second.subrange(range.start as int, range.end as int),
{
    let bytes_a = first.subrange(range.start as int, range.end as int);
    let bytes_b = second.subrange(range.start as int, range.end as int);
    let preimage_a = leaf_preimage(range.start, range.end, bytes_a);
    let preimage_b = leaf_preimage(range.start, range.end, bytes_b);
    lemma_climb_binds_its_start(
        provider,
        provider.digest(preimage_a),
        provider.digest(preimage_b),
        range.path,
    );
    if !has_collision(provider) {
        if preimage_a != preimage_b {
            assert(collides(provider, preimage_a, preimage_b));
        }
        lemma_leaf_preimage_is_injective(range.start, range.end, bytes_a, bytes_b);
    }
}

/// Hashes `leaf` up along `path`.
fn climb_path<P: CryptoProvider>(provider: &P, leaf: Vec<u8>, path: &Vec<PathStep>) -> (top: Vec<
    u8,
>)
    ensures
        top@ == climb(provider, leaf@, crate::presentation::path_view(path@)),
{
    let ghost steps = crate::presentation::path_view(path@);
    let mut node = leaf;
    let mut i: usize = 0;
    assert(steps.take(0) =~= Seq::empty());
    while i < path.len()
        invariant
            0 <= i <= path.len(),
            steps == crate::presentation::path_view(path@),
            node@ == climb(provider, leaf@, steps.take(i as int)),
        decreases path.len() - i,
    {
        let step = &path[i];
        let mut preimage: Vec<u8> = Vec::new();
        preimage.push(1u8);
        assert(preimage@ =~= seq![1u8]);
        if step.sibling_on_left {
            bytes::push_be64(&mut preimage, step.sibling.len() as u64);
            bytes::push_bytes(&mut preimage, step.sibling.as_slice());
            bytes::push_bytes(&mut preimage, node.as_slice());
            assert(preimage@ == node_preimage(step.sibling@, node@));
        } else {
            bytes::push_be64(&mut preimage, node.len() as u64);
            bytes::push_bytes(&mut preimage, node.as_slice());
            bytes::push_bytes(&mut preimage, step.sibling.as_slice());
            assert(preimage@ == node_preimage(node@, step.sibling@));
        }
        proof {
            assert(steps.take(i + 1).drop_last() =~= steps.take(i as int));
            assert(steps.take(i + 1).last() == steps[i as int]);
            assert(steps[i as int] == step@);
        }
        node = provider.hash(preimage.as_slice());
        i = i + 1;
    }
    assert(steps.take(i as int) =~= steps);
    node
}

/// The root that the bytes and the path of `range` hash to.
fn range_root_bytes<P: CryptoProvider>(provider: &P, data: &[u8], range: &DisclosedRange) -> (root:
    Vec<u8>)
    requires
        range.start <= range.end <= data@.len(),
    ensures
        root@ == range_root(provider, data@, range@),
{
    let total = data.len();
    assert(range.end <= total);
    let disclosed = vstd::slice::slice_subrange(data, range.start as usize, range.end as usize);
    let mut preimage: Vec<u8> = Vec::new();
    preimage.push(0u8);
    assert(preimage@ =~= seq![0u8]);
    bytes::push_be64(&mut preimage, range.start);
    bytes::push_be64(&mut preimage, range.end);
    bytes::push_bytes(&mut preimage, disclosed);
    assert(preimage@ == leaf_preimage(range.start, range.end, disclosed@));
    let leaf = provider.hash(preimage.as_slice());
    climb_path(provider, leaf, &range.path)
}

/// Checks the ranges in the order listed and stops at the first that is not
/// in order: one bad range fails the whole proof. A proof without ranges
/// discloses nothing and passes. On success the result holds the bounds of
/// every range.
pub fn verify_transcript<P: CryptoProvider>(
    transcript: &TranscriptProof,
    committed_root: &[u8],
    provider: &P,
) -> (verdict: Result<Vec<(usize, usize)>, ProofError>)
    ensures
        match verdict {
            Ok(ranges) => transcript_verdict(provider, transcript@, committed_root@) == Ok::<
                Seq<(usize, usize)>,
                ProofError,
            >(ranges@),
            Err(e) => transcript_verdict(provider, transcript@, committed_root@) == Err::<
                Seq<(usize, usize)>,
                ProofError,
            >(e),
        },
{
    let n = transcript.ranges.len();
    let total = transcript.data.len();
    let mut out: Vec<(usize, usize)> = Vec::new();
    let mut previous_end: u64 = 0;
    let mut i: usize = 0;
    while i < n
        invariant
            n == transcript.ranges@.len(),
            total == transcript.data@.len(),
            0 <= i <= n,
            first_fault(provider, transcript@, committed_root@, i as nat) is None,
            i > 0 ==> previous_end == transcript.ranges@[i - 1].end,
            out@.len() == i,
            forall|j: int|
                0 <= j < i ==> #[trigger] out@[j] == (
                    transcript.ranges@[j].start as usize,
                    transcript.ranges@[j].end as usize,
                ),
        decreases n - i,
    {
        let range = &transcript.ranges[i];
        assert(transcript@.ranges[i as int] == range@);
        let fault = if range.start > range.end {
            Some(RangeFault::Inverted)
        } else if range.end > total as u64 {
            Some(RangeFault::OutOfBounds)
        } else if (range.start == range.end) != range.declared_empty {
            Some(RangeFault::EmptyFlag)
        } else if i > 0 && previous_end > range.start {
            Some(RangeFault::Overlap)
        } else {
            let root = range_root_bytes(provider, transcript.data.as_slice(), range);
            if bytes::bytes_equal(root.as_slice(), committed_root) {
                None
            } else {
                Some(RangeFault::Unauthenticated)
            }
        };
        assert(fault == range_fault(provider, transcript@, committed_root@, i as int));
        match fault {
            Some(fault) => {
                proof {
                    lemma_first_fault_stays(
                        provider,
                        transcript@,
                        committed_root@,
                        (i + 1) as nat,
                        n as nat,
                    );
                }
                return Err(ProofError { index: i, fault });
            },
            None => {},
        }
        out.push((range.start as usize, range.end as usize));
        previous_end = range.end;
        i = i + 1;
    }
    assert(out@ =~= disclosed_ranges(transcript@));
    Ok(out)
}

} // verus!
