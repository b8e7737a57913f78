//! The transcript reconstructor: the transcript in its full length, with
//! every byte that no disclosed range covers marked absent.

use vstd::prelude::*;

verus! {

/// The reconstructed transcript. A cell holds a byte that was disclosed, or
/// nothing: no value stands in for a byte that was withheld. The bytes sent
/// come first, and `sent_len` is their number.
#[derive(Debug, Clone, PartialEq, Eq)]
pub struct Transcript {
    pub cells: Vec<Option<u8>>,
    pub sent_len: usize,
}

/// What a `Transcript` holds, as mathematical values.
pub struct TranscriptView {
    pub cells: Seq<Option<u8>>,
    pub sent_len: nat,
}

impl View for Transcript {
    type V = TranscriptView;

    open spec fn view(&self) -> TranscriptView {
        TranscriptView { cells: self.cells@, sent_len: self.sent_len as nat }
    }
}

/// Whether one of the first `k` ranges covers position `i`.
pub open spec fn covered_before(ranges: Seq<(usize, usize)>, k: int, i: int) -> bool {
    exists|m: int| 0 <= m < k && m < ranges.len() && (#[trigger] ranges[m]).0 <= i < ranges[m].1
}

/// Whether some range covers position `i`.
pub open spec fn covered(ranges: Seq<(usize, usize)>, i: int) -> bool {
    covered_before(ranges, ranges.len() as int, i)
}

/// The cells of `data` under `ranges`: a byte where a range covers it,
/// nothing elsewhere.
pub open spec fn disclose(ranges: Seq<(usize, usize)>, data: Seq<u8>) -> Seq<Option<u8>> {
    Seq::new(
        data.len(),
        |i: int|
            if covered(ranges, i) {
                Some(data[i])
            } else {
                None
            },
    )
}

/// The bytes that are there, in order, the gaps left out.
pub open spec fn present(cells: Seq<Option<u8>>) -> Seq<u8>
    decreases cells.len(),
{
    if cells.len() == 0 {
        Seq::empty()
    } else {
        match cells.last() {
            Some(b) => present(cells.drop_last()).push(b),
            None => present(cells.drop_last()),
        }
    }
}

impl TranscriptView {
    /// The cells of what was received.
    pub open spec fn received(self) -> Seq<Option<u8>> {
        if self.sent_len <= self.cells.len() {
            self.cells.subrange(self.sent_len as int, self.cells.len() as int)
        } else {
            Seq::empty()
        }
    }

    /// The disclosed bytes of what was received.
    pub open spec fn received_bytes(self) -> Seq<u8> {
        present(self.received())
    }
}

/// Lays the disclosed bytes of `data` out over the transcript's full length.
/// A range that reaches beyond `data` discloses what of it lies inside.
pub fn reconstruct(ranges: &[(usize, usize)], data: &[u8], sent_len: usize) -> (transcript:
    Transcript)
    ensures
        transcript@.cells == disclose(ranges@, data@),
        transcript@.sent_len == sent_len,
{
    let n = data.len();
    let mut cells: Vec<Option<u8>> = Vec::new();
    let mut i: usize = 0;
    while i < n
        invariant
            n == data@.len(),
            0 <= i <= n,
            cells@.len() == i,
            forall|j: int| 0 <= j < i ==> cells@[j] is None,
        decreases n - i,
    {
        cells.push(None);
        i = i + 1;
    }
    let mut k: usize = 0;
    while k < ranges.len()
        invariant
            n == data@.len(),
            0 <= k <= ranges@.len(),
            cells@.len() == n,
            forall|j: int|
                0 <= j < n ==> #[trigger] cells@[j] == if covered_before(ranges@, k as int, j) {
                    Some(data@[j])
                } else {
                    None
                },
        decreases ranges.len() - k,
    {
        let (start, end) = ranges[k];
        let stop = if end < n {
            end
        } else {
            n
        };
        let mut p: usize = start;
        while p < stop
            invariant
                n == data@.len(),
                0 <= k < ranges@.len(),
                ranges@[k as int] == (start, end),
                stop <= n,
                stop <= end,
                start <= p,
                p <= stop || p == start,
                cells@.len() == n,
                forall|j: int|
                    0 <= j < n ==> #[trigger] cells@[j] == if covered_before(ranges@, k as int, j)
                        || start <= j < p {
                        Some(data@[j])
                    } else {
                        None
                    },
            decreases stop - p,
        {
            cells.set(p, Some(data[p]));
            p = p + 1;
        }
        proof {
            assert forall|j: int| 0 <= j < n implies (covered_before(ranges@, k + 1, j) <==> (
            covered_before(ranges@, k as int, j) || start <= j < p)) by {
                if covered_before(ranges@, k + 1, j) {
                    let m = choose|m: int|
                        0 <= m < k + 1 && m < ranges@.len() && (#[trigger] ranges@[m]).0 <= j
                            < ranges@[m].1;
                    if m < k {
                        assert(covered_before(ranges@, k as int, j));
                    }
                }
                if start <= j < p {
                    assert(ranges@[k as int].0 <= j < ranges@[k as int].1);
                }
                if covered_before(ranges@, k as int, j) {
                    let m = choose|m: int|
                        0 <= m < k && m < ranges@.len() && (#[trigger] ranges@[m]).0 <= j
                            < ranges@[m].1;
                    assert(0 <= m < k + 1);
                }
            }
        }
        k = k + 1;
    }
    assert(cells@ =~= disclose(ranges@, data@));
    Transcript { cells, sent_len }
}

impl Transcript {
    /// The disclosed bytes of what was received, in order.
    pub fn received_bytes(&self) -> (bytes: Vec<u8>)
        ensures
            bytes@ == self@.received_bytes(),
    {
        let n = self.cells.len();
        let mut bytes: Vec<u8> = Vec::new();
        if self.sent_len > n {
            return bytes;
        }
        let ghost cells = self@.received();
        let mut i: usize = self.sent_len;
        assert(cells.take(0) =~= Seq::empty());
        while i < n
            invariant
                n == self.cells@.len(),
                self.sent_len <= i <= n,
                cells == self@.received(),
                cells.len() == n - self.sent_len,
                bytes@ == present(cells.take(i - self.sent_len)),
            decreases n - i,
        {
            proof {
                let upto = i - self.sent_len + 1;
                assert(cells.take(upto).drop_last() =~= cells.take(upto - 1));
                assert(cells.take(upto).last() == self.cells@[i as int]);
            }
            match self.cells[i] {
                Some(b) => {
                    bytes.push(b);
                },
                None => {},
            }
            i = i + 1;
        }
        assert(cells.take(n - self.sent_len) =~= cells);
        bytes
    }
}

} // verus!
