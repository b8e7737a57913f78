//! Byte strings: comparing, copying, and writing lengths before contents.

use vstd::prelude::*;

verus! {

/// The eight bytes of `v`, the most significant first.
#[verifier::opaque]
pub open spec fn be64(v: u64) -> Seq<u8> {
    seq![
        (v / 0x100_0000_0000_0000) as u8,
        (v / 0x1_0000_0000_0000 % 0x100) as u8,
        (v / 0x100_0000_0000 % 0x100) as u8,
        (v / 0x1_0000_0000 % 0x100) as u8,
        (v / 0x100_0000 % 0x100) as u8,
        (v / 0x1_0000 % 0x100) as u8,
        (v / 0x100 % 0x100) as u8,
        (v % 0x100) as u8,
    ]
}

/// A byte string behind its length, so that where it ends is never in doubt.
pub open spec fn framed(bytes: Seq<u8>) -> Seq<u8> {
    be64(bytes.len() as u64) + bytes
}

/// `be64` gives eight bytes, and different numbers give different bytes.
pub proof fn lemma_be64_is_injective(a: u64, b: u64)
    ensures
        be64(a).len() == 8,
        be64(a) == be64(b) ==> a == b,
{
    reveal(be64);
    if be64(a) == be64(b) {
        assert(be64(a)[0] == be64(b)[0]);
        assert(be64(a)[1] == be64(b)[1]);
        assert(be64(a)[2] == be64(b)[2]);
        assert(be64(a)[3] == be64(b)[3]);
        assert(be64(a)[4] == be64(b)[4]);
        assert(be64(a)[5] == be64(b)[5]);
        assert(be64(a)[6] == be64(b)[6]);
        assert(be64(a)[7] == be64(b)[7]);
        assert(a / 0x100_0000_0000_0000 == b / 0x100_0000_0000_0000);
        assert(a == b) by (bit_vector)
            requires
                a / 0x100_0000_0000_0000 == b / 0x100_0000_0000_0000,
                a / 0x1_0000_0000_0000 % 0x100 == b / 0x1_0000_0000_0000 % 0x100,
                a / 0x100_0000_0000 % 0x100 == b / 0x100_0000_0000 % 0x100,
                a / 0x1_0000_0000 % 0x100 == b / 0x1_0000_0000 % 0x100,
                a / 0x100_0000 % 0x100 == b / 0x100_0000 % 0x100,
                a / 0x1_0000 % 0x100 == b / 0x1_0000 % 0x100,
                a / 0x100 % 0x100 == b / 0x100 % 0x100,
                a % 0x100 == b % 0x100,
        ;
    }
}

/// A framed byte string can be read back in one way only: two framed
/// strings, each followed by more, are the same bytes only if the strings
/// are the same and what follows is the same.
pub proof fn lemma_framed_is_unambiguous(a: Seq<u8>, after_a: Seq<u8>, b: Seq<u8>, after_b: Seq<u8>)
    requires
        a.len() <= u64::MAX,
        b.len() <= u64::MAX,
        framed(a) + after_a == framed(b) + after_b,
    ensures
        a == b,
        after_a == after_b,
{
    let left = framed(a) + after_a;
    let right = framed(b) + after_b;
    lemma_be64_is_injective(a.len() as u64, b.len() as u64);
    lemma_be64_is_injective(b.len() as u64, a.len() as u64);
    assert(left.subrange(0, 8) =~= be64(a.len() as u64));
    assert(right.subrange(0, 8) =~= be64(b.len() as u64));
    assert(a.len() == b.len());
    let end = 8 + a.len() as int;
    assert(left.subrange(8, end) =~= a);
    assert(right.subrange(8, end) =~= b);
    assert(left.subrange(end, left.len() as int) =~= after_a);
    assert(right.subrange(end, right.len() as int) =~= after_b);
}

/// Appends the eight bytes of `v`, the most significant first.
pub fn push_be64(out: &mut Vec<u8>, v: u64)
    ensures
        final(out)@ == old(out)@ + be64(v),
{
    let ghost before = out@;
    out.push((v / 0x100_0000_0000_0000) as u8);
    out.push((v / 0x1_0000_0000_0000 % 0x100) as u8);
    out.push((v / 0x100_0000_0000 % 0x100) as u8);
    out.push((v / 0x1_0000_0000 % 0x100) as u8);
    out.push((v / 0x100_0000 % 0x100) as u8);
    out.push((v / 0x1_0000 % 0x100) as u8);
    out.push((v / 0x100 % 0x100) as u8);
    out.push((v % 0x100) as u8);
    assert(out@ =~= before + be64(v)) by {
        reveal(be64);
    }
}

/// Appends `bytes`.
pub fn push_bytes(out: &mut Vec<u8>, bytes: &[u8])
    ensures
        final(out)@ == old(out)@ + bytes@,
{
    let ghost before = out@;
    let mut i: usize = 0;
    while i < bytes.len()
        invariant
            0 <= i <= bytes@.len(),
            out@ == before + bytes@.subrange(0, i as int),
        decreases bytes.len() - i,
    {
        out.push(bytes[i]);
        assert(before + bytes@.subrange(0, i + 1) =~= (before + bytes@.subrange(
            0,
            i as int,
        )).push(bytes@[i as int]));
        i = i + 1;
    }
    assert(bytes@.subrange(0, i as int) =~= bytes@);
}

/// Whether two byte strings are the same.
pub fn bytes_equal(a: &[u8], b: &[u8]) -> (same: bool)
    ensures
        same == (a@ == b@),
{
    if a.len() != b.len() {
        return false;
    }
    let mut i: usize = 0;
    while i < a.len()
        invariant
            a@.len() == b@.len(),
            0 <= i <= a@.len(),
            forall|j: int| 0 <= j < i ==> a@[j] == b@[j],
        decreases a.len() - i,
    {
        if a[i] != b[i] {
            return false;
        }
        i = i + 1;
    }
    assert(a@ =~= b@);
    true
}

/// A copy of a byte string.
pub fn copy_bytes(bytes: &[u8]) -> (copy: Vec<u8>)
    ensures
        copy@ == bytes@,
{
    let mut copy: Vec<u8> = Vec::new();
    let mut i: usize = 0;
    while i < bytes.len()
        invariant
            0 <= i <= bytes@.len(),
            copy@ == bytes@.subrange(0, i as int),
        decreases bytes.len() - i,
    {
        copy.push(bytes[i]);
        assert(bytes@.subrange(0, i as int).push(bytes@[i as int]) =~= bytes@.subrange(
            0,
            i + 1,
        ));
        i = i + 1;
    }
    assert(bytes@.subrange(0, i as int) =~= bytes@);
    copy
}

} // verus!
