//! The envelope of what a call returns.

use crate::encoding::{
    bytes_decoding, bytes_encoding, cast_of, decode_bytes, encode_bytes,
    lemma_bytes_decoding_consumes, lemma_bytes_round_trip, lemma_cast_of_encoding, Encodable,
};
use crate::error::DecodeError;
use vstd::prelude::*;
use vstd::slice::slice_to_vec;

verus! {

/// A generic return value: the encoded result of a call.
///
/// Its view is the sequence of the bytes it wraps.
#[derive(Debug)]
pub struct ReturnValue(Vec<u8>);

impl View for ReturnValue {
    type V = Seq<u8>;

    closed spec fn view(&self) -> Seq<u8> {
        self.0@
    }
}

impl ReturnValue {
    /// Returns the byte representation of the return value.
    pub fn as_bytes(&self) -> (r: &[u8])
        ensures
            r@ == self@,
    {
        self.0.as_slice()
    }

    /// Creates a return value from raw bytes, which it wraps as they are.
    pub fn from_slice(buffer: &[u8]) -> (r: Self)
        ensures
            r@ == buffer@,
    {
        ReturnValue(slice_to_vec(buffer))
    }

    /// Creates a return value that owns the given bytes.
    pub fn from_vec(bytes: Vec<u8>) -> (r: Self)
        ensures
            r@ == bytes@,
    {
        ReturnValue(bytes)
    }

    /// Creates a return value from an encodable value: it wraps the value's encoding.
    pub fn from_canon<C: Encodable>(c: &C) -> (r: Self)
        ensures
            r@ == C::encoding(c@),
    {
        ReturnValue(c.encode_to_vec())
    }

    /// Casts the return value to the given type: decodes the value at the head of its
    /// bytes. Bytes after that value are no error.
    pub fn cast<C: Encodable>(&self) -> (r: Result<C, DecodeError>)
        ensures
            match cast_of::<C>(self@) {
                Ok(v) => r matches Ok(x) && x@ == v,
                Err(e) => r matches Err(f) && f == e,
            },
    {
        match C::decode(self.0.as_slice()) {
            Ok((x, _)) => Ok(x),
            Err(e) => Err(e),
        }
    }

    /// A return value made from a value casts back to that value.
    pub proof fn lemma_cast_from_canon<C: Encodable>(&self, c: &C)
        requires
            self@ == C::encoding(c@),
        ensures
            cast_of::<C>(self@) == Ok::<C::V, DecodeError>(c@),
    {
        lemma_cast_of_encoding(c);
    }
}

impl Clone for ReturnValue {
    /// A return value with the same bytes.
    fn clone(&self) -> (r: Self)
        ensures
            r@ == self@,
    {
        ReturnValue(slice_to_vec(self.0.as_slice()))
    }
}

impl Default for ReturnValue {
    /// The return value with no bytes.
    fn default() -> (r: Self)
        ensures
            r@ == Seq::<u8>::empty(),
    {
        ReturnValue(Vec::new())
    }
}

impl Encodable for ReturnValue {
    /// The length of the return value as a varint, then its bytes.
    open spec fn encoding(v: Seq<u8>) -> Seq<u8> {
        bytes_encoding(v)
    }

    open spec fn decoding(bytes: Seq<u8>) -> Result<(Seq<u8>, nat), DecodeError> {
        bytes_decoding(bytes)
    }

    proof fn lemma_round_trip(&self, rest: Seq<u8>) {
        assert(self.0@.len() == self.0.len());
        lemma_bytes_round_trip(self@, rest);
    }

    proof fn lemma_decoding_consumes(bytes: Seq<u8>) {
        lemma_bytes_decoding_consumes(bytes);
    }

    fn encode_to_vec(&self) -> (bytes: Vec<u8>) {
        encode_bytes(self.0.as_slice())
    }

    fn decode(bytes: &[u8]) -> (r: Result<(ReturnValue, usize), DecodeError>) {
        match decode_bytes(bytes) {
            Ok((payload, n)) => Ok((ReturnValue(payload), n)),
            Err(e) => Err(e),
        }
    }
}

impl PartialEq for ReturnValue {
    /// Two return values are equal where their bytes are.
    fn eq(&self, other: &Self) -> (r: bool) {
        if self.0.len() != other.0.len() {
            return false;
        }
        let mut i: usize = 0;
        while i < self.0.len()
            invariant
                i <= self.0@.len(),
                self.0@.len() == other.0@.len(),
                forall|j: int| 0 <= j < i ==> self.0@[j] == other.0@[j],
            decreases self.0@.len() - i,
        {
            if self.0[i] != other.0[i] {
                return false;
            }
            i += 1;
        }
        assert(self.0@ =~= other.0@);
        true
    }
}

impl vstd::std_specs::cmp::PartialEqSpecImpl for ReturnValue {
    open spec fn obeys_eq_spec() -> bool {
        true
    }

    open spec fn eq_spec(&self, other: &Self) -> bool {
        self@ == other@
    }
}

} // verus!
