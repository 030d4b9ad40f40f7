//! Fixed-width digests and signatures.

use crate::hex::{hex_text, push_hex};
use crate::order::{compare_bytes, lemma_order_equal, ByteOrder};
use vstd::prelude::*;
use vstd::string::*;

verus! {

/// Number of bytes in a signature.
pub const SIGNATURE_BYTES: usize = 64;

/// A digest of 32 bytes. Its view is the sequence of those bytes.
#[derive(Clone, Copy, Hash, Eq)]
pub struct H256([u8; 32]);

impl View for H256 {
    type V = Seq<u8>;

    closed spec fn view(&self) -> Seq<u8> {
        self.0@
    }
}

impl H256 {
    /// Every digest has exactly 32 bytes.
    pub proof fn lemma_len(&self)
        ensures
            self@.len() == 32,
    {
    }

    /// The digest whose bytes are all zero.
    pub fn zero() -> (r: Self)
        ensures
            r@ == Seq::new(32, |i: int| 0u8),
    {
        let r = H256([0u8; 32]);
        assert(r@ =~= Seq::new(32, |i: int| 0u8));
        r
    }

    /// The digest that holds a copy of the given 32 bytes.
    pub fn from_bytes(bytes: &[u8]) -> (r: Self)
        requires
            bytes@.len() == 32,
        ensures
            r@ == bytes@,
    {
        let mut new = [0u8; 32];
        let mut i: usize = 0;
        while i < 32
            invariant
                i <= 32,
                bytes@.len() == 32,
                forall|j: int| 0 <= j < i ==> new@[j] == bytes@[j],
            decreases 32 - i,
        {
            new[i] = bytes[i];
            i += 1;
        }
        let r = H256(new);
        assert(r@ =~= bytes@);
        r
    }

    /// The bytes of the digest.
    pub fn as_bytes(&self) -> (r: &[u8])
        ensures
            r@ == self@,
            r@.len() == 32,
    {
        &self.0
    }

    /// The digest as it is shown when debugging: `Digest(`, its bytes in lower case
    /// hexadecimal digits, and `)`.
    pub fn to_debug_string(&self) -> (s: String)
        ensures
            s@ == "Digest("@ + hex_text(self@, false) + ")"@,
    {
        let mut out = String::new();
        out.append("Digest(");
        push_hex(&mut out, self.as_bytes(), false);
        out.append(")");
        proof {
            assert(Seq::<char>::empty() + "Digest("@ =~= "Digest("@);
        }
        out
    }

    /// The bytes of the digest, to be changed in place.
    pub fn as_bytes_mut(&mut self) -> (r: &mut [u8])
        ensures
            r@ == old(self)@,
            final(self)@ == final(r)@,
    {
        &mut self.0
    }
}

impl AsRef<[u8]> for H256 {
    /// The bytes of the digest.
    fn as_ref(&self) -> (r: &[u8])
        ensures
            r@ == self@,
    {
        &self.0
    }
}

impl AsMut<[u8]> for H256 {
    /// The bytes of the digest, to be changed in place.
    fn as_mut(&mut self) -> (r: &mut [u8])
        ensures
            r@ == old(self)@,
            final(self)@ == final(r)@,
    {
        &mut self.0
    }
}

impl PartialEq for H256 {
    /// Two digests are equal where all their 32 bytes are.
    fn eq(&self, other: &Self) -> (r: bool) {
        proof {
            lemma_order_equal(self@, other@);
        }
        match compare_bytes(self.as_bytes(), other.as_bytes()) {
            ByteOrder::Equal => true,
            _ => false,
        }
    }
}

impl vstd::std_specs::cmp::PartialEqSpecImpl for H256 {
    open spec fn obeys_eq_spec() -> bool {
        true
    }

    open spec fn eq_spec(&self, other: &Self) -> bool {
        self@ == other@
    }
}

impl Default for H256 {
    /// The digest whose bytes are all zero.
    fn default() -> (r: Self)
        ensures
            r@ == Seq::new(32, |i: int| 0u8),
    {
        H256::zero()
    }
}

/// A signature of 64 bytes. Its view is the sequence of those bytes.
pub struct Signature([u8; 64]);

impl View for Signature {
    type V = Seq<u8>;

    closed spec fn view(&self) -> Seq<u8> {
        self.0@
    }
}

impl Signature {
    /// Every signature has exactly 64 bytes.
    pub proof fn lemma_len(&self)
        ensures
            self@.len() == 64,
    {
    }

    /// The bytes of the signature as an array.
    pub fn as_array(&self) -> (r: &[u8; 64])
        ensures
            r@ == self@,
    {
        &self.0
    }

    /// The signature whose 64 bytes all hold 42.
    pub fn new() -> (r: Self)
        ensures
            r@ == Seq::new(64, |i: int| 42u8),
    {
        let r = Signature([42u8; 64]);
        assert(r@ =~= Seq::new(64, |i: int| 42u8));
        r
    }

    /// The signature that holds a copy of the given 64 bytes.
    pub fn from_slice(slice: &[u8]) -> (r: Self)
        requires
            slice@.len() == 64,
        ensures
            r@ == slice@,
    {
        let mut buf = [0u8; 64];
        let mut i: usize = 0;
        while i < SIGNATURE_BYTES
            invariant
                i <= 64,
                slice@.len() == 64,
                forall|j: int| 0 <= j < i ==> buf@[j] == slice@[j],
            decreases 64 - i,
        {
            buf[i] = slice[i];
            i += 1;
        }
        let r = Signature(buf);
        assert(r@ =~= slice@);
        r
    }

    /// The bytes of the signature.
    pub fn as_bytes(&self) -> (r: &[u8])
        ensures
            r@ == self@,
            r@.len() == 64,
    {
        &self.0
    }

    /// The signature as it is shown when debugging: `Signature(`, then its bytes in
    /// lower case hexadecimal digits.
    pub fn to_debug_string(&self) -> (s: String)
        ensures
            s@ == "Signature("@ + hex_text(self@, false),
    {
        let mut out = String::new();
        out.append("Signature(");
        push_hex(&mut out, self.as_bytes(), false);
        proof {
            assert(Seq::<char>::empty() + "Signature("@ =~= "Signature("@);
        }
        out
    }

    /// The two halves of the signature: its first 32 bytes and its last 32 bytes.
    pub fn halves(&self) -> (r: ([u8; 32], [u8; 32]))
        ensures
            r.0@ == self@.subrange(0, 32),
            r.1@ == self@.subrange(32, 64),
    {
        let mut first = [0u8; 32];
        let mut second = [0u8; 32];
        let mut i: usize = 0;
        while i < 32
            invariant
                i <= 32,
                forall|j: int| 0 <= j < i ==> first@[j] == self.0@[j],
                forall|j: int| 0 <= j < i ==> second@[j] == self.0@[j + 32],
            decreases 32 - i,
        {
            first[i] = self.0[i];
            second[i] = self.0[i + 32];
            i += 1;
        }
        assert(first@ =~= self@.subrange(0, 32));
        assert(second@ =~= self@.subrange(32, 64));
        (first, second)
    }

    /// The signature whose first 32 bytes are `first` and whose last 32 bytes are
    /// `second`.
    pub fn from_halves(first: &[u8; 32], second: &[u8; 32]) -> (r: Self)
        ensures
            r@ == first@ + second@,
    {
        let mut buf = [0u8; 64];
        let mut i: usize = 0;
        while i < 32
            invariant
                i <= 32,
                forall|j: int| 0 <= j < i ==> buf@[j] == first@[j],
                forall|j: int| 0 <= j < i ==> buf@[j + 32] == second@[j],
            decreases 32 - i,
        {
            buf[i] = first[i];
            buf[i + 32] = second[i];
            i += 1;
        }
        let r = Signature(buf);
        assert(r@ =~= first@ + second@);
        r
    }

    /// A signature is its two halves, one after the other.
    pub proof fn lemma_halves(&self)
        ensures
            self@ == self@.subrange(0, 32) + self@.subrange(32, 64),
    {
        assert(self@ =~= self@.subrange(0, 32) + self@.subrange(32, 64));
    }

    /// The bytes of the signature, to be changed in place.
    pub fn as_bytes_mut(&mut self) -> (r: &mut [u8])
        ensures
            r@ == old(self)@,
            final(self)@ == final(r)@,
    {
        &mut self.0
    }
}

impl AsRef<[u8]> for Signature {
    /// The bytes of the signature.
    fn as_ref(&self) -> (r: &[u8])
        ensures
            r@ == self@,
    {
        &self.0
    }
}

impl AsMut<[u8]> for Signature {
    /// The bytes of the signature, to be changed in place.
    fn as_mut(&mut self) -> (r: &mut [u8])
        ensures
            r@ == old(self)@,
            final(self)@ == final(r)@,
    {
        &mut self.0
    }
}

} // verus!
