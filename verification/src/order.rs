//! The order of byte sequences: decided by the first byte in which they differ, and
//! where neither has such a byte, by their lengths.

use vstd::prelude::*;

verus! {

/// How one byte sequence stands to another.
#[derive(Clone, Copy, Debug, PartialEq, Eq, Structural)]
pub enum ByteOrder {
    /// The first comes before the second.
    Less,
    /// The two hold the same bytes.
    Equal,
    /// The first comes after the second.
    Greater,
}

/// `i` is the first position at which `a` and `b` differ.
pub open spec fn differ_first_at(a: Seq<u8>, b: Seq<u8>, i: int) -> bool {
    &&& 0 <= i < a.len()
    &&& i < b.len()
    &&& a[i] != b[i]
    &&& forall|j: int| 0 <= j < i ==> a[j] == b[j]
}

/// `a` is the start of `b`, and `b` goes on after it.
pub open spec fn is_proper_prefix(a: Seq<u8>, b: Seq<u8>) -> bool {
    &&& a.len() < b.len()
    &&& forall|j: int| 0 <= j < a.len() ==> a[j] == b[j]
}

/// `a` comes before `b`: where they first differ, `a` has the smaller byte, or they
/// differ nowhere and `b` goes on after the end of `a`.
pub open spec fn bytes_less(a: Seq<u8>, b: Seq<u8>) -> bool {
    is_proper_prefix(a, b) || exists|i: int| #[trigger] differ_first_at(a, b, i) && a[i] < b[i]
}

/// How `a` stands to `b`, byte by byte from the first.
pub open spec fn bytes_order(a: Seq<u8>, b: Seq<u8>) -> ByteOrder {
    if bytes_less(a, b) {
        ByteOrder::Less
    } else if bytes_less(b, a) {
        ByteOrder::Greater
    } else {
        ByteOrder::Equal
    }
}

/// Two sequences first differ at one position only, whichever is named first.
pub proof fn lemma_first_difference_unique(a: Seq<u8>, b: Seq<u8>, i: int, j: int)
    requires
        differ_first_at(a, b, i),
        differ_first_at(a, b, j) || differ_first_at(b, a, j),
    ensures
        i == j,
{
    if i < j {
        assert(a[i] == b[i]);
    } else if j < i {
        assert(a[j] == b[j]);
    }
}

/// Two sequences that agree in their first `n` bytes and are not equal differ at some
/// first position, or one is the start of the other.
pub proof fn lemma_difference_exists(a: Seq<u8>, b: Seq<u8>, n: int)
    requires
        a != b,
        0 <= n <= a.len(),
        n <= b.len(),
        forall|j: int| 0 <= j < n ==> a[j] == b[j],
    ensures
        is_proper_prefix(a, b) || is_proper_prefix(b, a) || exists|i: int|
            differ_first_at(a, b, i),
    decreases a.len() - n,
{
    if n == a.len() || n == b.len() {
        if a.len() == b.len() {
            assert(a =~= b);
        }
    } else if a[n] != b[n] {
        assert(differ_first_at(a, b, n));
    } else {
        lemma_difference_exists(a, b, n + 1);
    }
}

/// Two sequences are in the order `Equal` exactly where they are equal.
pub proof fn lemma_order_equal(a: Seq<u8>, b: Seq<u8>)
    ensures
        bytes_order(a, b) == ByteOrder::Equal <==> a == b,
{
    if a != b {
        lemma_difference_exists(a, b, 0);
        if !is_proper_prefix(a, b) && !is_proper_prefix(b, a) {
            let i = choose|i: int| differ_first_at(a, b, i);
            if a[i] > b[i] {
                assert(differ_first_at(b, a, i));
            }
        }
    }
}

/// No sequence comes both before and after another: `a` is before `b` exactly where
/// `b` is after `a`.
pub proof fn lemma_order_flip(a: Seq<u8>, b: Seq<u8>)
    ensures
        bytes_order(a, b) == ByteOrder::Less <==> bytes_order(b, a) == ByteOrder::Greater,
        bytes_order(a, b) == ByteOrder::Equal <==> bytes_order(b, a) == ByteOrder::Equal,
        !(bytes_less(a, b) && bytes_less(b, a)),
{
    if bytes_less(a, b) && bytes_less(b, a) {
        if is_proper_prefix(a, b) {
            // `b` is longer, so it comes before `a` by a byte in which they differ
            let j = choose|j: int| #[trigger] differ_first_at(b, a, j) && b[j] < a[j];
            assert(a[j] == b[j]);
        } else if is_proper_prefix(b, a) {
            let i = choose|i: int| #[trigger] differ_first_at(a, b, i) && a[i] < b[i];
            assert(a[i] == b[i]);
        } else {
            let i = choose|i: int| #[trigger] differ_first_at(a, b, i) && a[i] < b[i];
            let j = choose|j: int| #[trigger] differ_first_at(b, a, j) && b[j] < a[j];
            lemma_first_difference_unique(a, b, i, j);
        }
    }
}

/// The order is transitive.
pub proof fn lemma_order_transitive(a: Seq<u8>, b: Seq<u8>, c: Seq<u8>)
    requires
        bytes_less(a, b),
        bytes_less(b, c),
    ensures
        bytes_less(a, c),
{
    if is_proper_prefix(a, b) {
        if is_proper_prefix(b, c) {
            assert(is_proper_prefix(a, c));
        } else {
            let j = choose|j: int| #[trigger] differ_first_at(b, c, j) && b[j] < c[j];
            if j < a.len() {
                assert(differ_first_at(a, c, j));
            } else {
                assert(is_proper_prefix(a, c));
            }
        }
    } else {
        let i = choose|i: int| #[trigger] differ_first_at(a, b, i) && a[i] < b[i];
        if is_proper_prefix(b, c) {
            assert(differ_first_at(a, c, i));
        } else {
            let j = choose|j: int| #[trigger] differ_first_at(b, c, j) && b[j] < c[j];
            if i <= j {
                assert(differ_first_at(a, c, i));
            } else {
                assert(differ_first_at(a, c, j));
            }
        }
    }
}

/// Compares two byte sequences, byte by byte from the first. Where one ends before a
/// byte differs, the shorter one comes first.
pub fn compare_bytes(a: &[u8], b: &[u8]) -> (r: ByteOrder)
    ensures
        r == bytes_order(a@, b@),
{
    let mut i: usize = 0;
    while i < a.len() && i < b.len()
        invariant
            i <= a@.len(),
            i <= b@.len(),
            forall|j: int| 0 <= j < i ==> a@[j] == b@[j],
        decreases a@.len() - i,
    {
        if a[i] < b[i] {
            assert(differ_first_at(a@, b@, i as int));
            return ByteOrder::Less;
        }
        if a[i] > b[i] {
            proof {
                assert(differ_first_at(b@, a@, i as int));
                lemma_order_flip(a@, b@);
            }
            return ByteOrder::Greater;
        }
        i += 1;
    }
    if a.len() < b.len() {
        assert(is_proper_prefix(a@, b@));
        ByteOrder::Less
    } else if a.len() > b.len() {
        proof {
            assert(is_proper_prefix(b@, a@));
            lemma_order_flip(a@, b@);
        }
        ByteOrder::Greater
    } else {
        proof {
            assert(a@ =~= b@);
            lemma_order_equal(a@, b@);
        }
        ByteOrder::Equal
    }
}

} // verus!
