//! Host names: dot-separated labels of letters, digits and hyphens.

use vstd::prelude::*;

verus! {

/// An ASCII letter or digit.
pub open spec fn is_alnum(b: u8) -> bool {
    (0x30 <= b <= 0x39) || (0x41 <= b <= 0x5a) || (0x61 <= b <= 0x7a)
}

/// The dot that separates labels.
pub open spec fn is_dot(b: u8) -> bool {
    b == 0x2e
}

/// The hyphen.
pub open spec fn is_hyphen(b: u8) -> bool {
    b == 0x2d
}

/// The number of bytes of the label that the byte at `i` belongs to, counted
/// up to and including `i`; zero at a dot.
pub open spec fn label_len(name: Seq<u8>, i: int) -> nat
    decreases i + 1,
{
    if i < 0 || i >= name.len() || is_dot(name[i]) {
        0
    } else {
        1 + label_len(name, i - 1)
    }
}

/// Whether the byte at `i` is the first or the last of its label.
pub open spec fn at_label_edge(name: Seq<u8>, i: int) -> bool {
    i == 0 || is_dot(name[i - 1]) || i == name.len() - 1 || is_dot(name[i + 1])
}

/// What must hold at position `i` of a host name: the byte is a letter, a
/// digit, a hyphen or a dot; at the edge of a label it is a letter or a
/// digit; and its label has at most 63 bytes so far.
pub open spec fn name_byte_ok(name: Seq<u8>, i: int) -> bool {
    &&& is_alnum(name[i]) || is_hyphen(name[i]) || is_dot(name[i])
    &&& at_label_edge(name, i) ==> is_alnum(name[i])
    &&& label_len(name, i) <= 63
}

/// A host name has 1 to 253 bytes, and every position of it is in order. So
/// its labels are not empty, have at most 63 bytes each, and neither begin
/// nor end with a hyphen.
pub open spec fn is_host_name(name: Seq<u8>) -> bool {
    &&& 1 <= name.len() <= 253
    &&& forall|i: int| 0 <= i < name.len() ==> name_byte_ok(name, i)
}

/// Whether a dot stands at one of the positions from `from` up to but not
/// including `to`.
pub open spec fn dot_between(name: Seq<u8>, from: int, to: int) -> bool {
    exists|j: int| from <= j < to && is_dot(#[trigger] name[j])
}

/// A stretch of a name without a dot is no longer than the label that its
/// last byte belongs to.
pub proof fn lemma_label_len_counts_a_dotless_stretch(name: Seq<u8>, from: int, to: int)
    requires
        0 <= from <= to < name.len(),
        forall|j: int| from <= j <= to ==> !is_dot(name[j]),
    ensures
        label_len(name, to) >= to - from + 1,
    decreases to - from,
{
    if from < to {
        lemma_label_len_counts_a_dotless_stretch(name, from, to - 1);
    }
}

/// What the definition of a host name comes to: no label is empty, none
/// begins or ends with a hyphen, and none has more than 63 bytes, so that
/// any 64 bytes in a row hold a dot.
pub proof fn law_host_name_labels_are_in_order(name: Seq<u8>)
    requires
        is_host_name(name),
    ensures
        is_alnum(name[0]),
        is_alnum(name[name.len() - 1]),
        forall|i: int|
            0 <= i < name.len() && is_dot(name[i]) ==> 0 < i < name.len() - 1 && is_alnum(
                name[i - 1],
            ) && is_alnum(name[i + 1]),
        forall|i: int| 0 <= i && i + 64 <= name.len() ==> #[trigger] dot_between(name, i, i + 64),
{
    assert(name_byte_ok(name, 0));
    assert(name_byte_ok(name, name.len() - 1));
    assert forall|i: int| 0 <= i < name.len() && is_dot(name[i]) implies 0 < i < name.len() - 1
        && is_alnum(name[i - 1]) && is_alnum(name[i + 1]) by {
        assert(name_byte_ok(name, i));
        assert(name_byte_ok(name, i - 1));
        assert(name_byte_ok(name, i + 1));
    }
    assert forall|i: int| 0 <= i && i + 64 <= name.len() implies #[trigger] dot_between(
        name,
        i,
        i + 64,
    ) by {
        if !dot_between(name, i, i + 64) {
            assert forall|j: int| i <= j <= i + 63 implies !is_dot(name[j]) by {
                if is_dot(name[j]) {
                    assert(dot_between(name, i, i + 64));
                }
            }
            lemma_label_len_counts_a_dotless_stretch(name, i, i + 63);
            assert(name_byte_ok(name, i + 63));
        }
    }
}

/// Whether `b` is an ASCII letter or digit.
fn alnum(b: u8) -> (r: bool)
    ensures
        r == is_alnum(b),
{
    (0x30 <= b && b <= 0x39) || (0x41 <= b && b <= 0x5a) || (0x61 <= b && b <= 0x7a)
}

/// Whether `name` is a host name.
pub fn is_valid_host_name(name: &[u8]) -> (ok: bool)
    ensures
        ok == is_host_name(name@),
{
    let n = name.len();
    if n == 0 || n > 253 {
        return false;
    }
    let mut run: usize = 0;
    let mut i: usize = 0;
    while i < n
        invariant
            n == name@.len(),
            1 <= n <= 253,
            0 <= i <= n,
            run == label_len(name@, i - 1),
            run <= 63,
            forall|j: int| 0 <= j < i ==> name_byte_ok(name@, j),
        decreases n - i,
    {
        let b = name[i];
        let dot = b == 0x2e;
        let letter = alnum(b);
        if !(letter || dot || b == 0x2d) {
            assert(!name_byte_ok(name@, i as int));
            return false;
        }
        let edge = i == 0 || name[i - 1] == 0x2e || i == n - 1 || name[i + 1] == 0x2e;
        if edge && !letter {
            assert(!name_byte_ok(name@, i as int));
            return false;
        }
        if dot {
            run = 0;
        } else {
            if run == 63 {
                assert(!name_byte_ok(name@, i as int));
                return false;
            }
            run = run + 1;
        }
        i = i + 1;
    }
    true
}

} // verus!
