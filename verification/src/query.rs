//! The envelope of a read-only request.

use crate::encoding::{
    bytes_decoding, bytes_encoding, cast_of, decode_bytes, encode_bytes,
    lemma_bytes_decoding_consumes, lemma_bytes_round_trip, lemma_cast_of_encoding, Encodable,
};
use crate::error::DecodeError;
use vstd::prelude::*;
use vstd::slice::slice_to_vec;

verus! {

/// A generic query: the encoded request of a read-only call.
///
/// Its view is the sequence of the bytes it wraps.
#[derive(Debug)]
pub struct Query(Vec<u8>);

impl View for Query {
    type V = Seq<u8>;

    closed spec fn view(&self) -> Seq<u8> {
        self.0@
    }
}

impl Query {
    /// Returns the byte representation of the query.
    pub fn as_bytes(&self) -> (r: &[u8])
        ensures
            r@ == self@,
    {
        self.0.as_slice()
    }

    /// Creates a query from raw bytes, which it wraps as they are.
    pub fn from_slice(buffer: &[u8]) -> (r: Self)
        ensures
            r@ == buffer@,
    {
        Query(slice_to_vec(buffer))
    }

    /// Creates a query that owns the given bytes.
    pub fn from_vec(bytes: Vec<u8>) -> (r: Self)
        ensures
            r@ == bytes@,
    {
        Query(bytes)
    }

    /// Creates a query from an encodable value: it wraps the value's encoding.
    pub fn from_canon<C: Encodable>(c: &C) -> (r: Self)
        ensures
            r@ == C::encoding(c@),
    {
        Query(c.encode_to_vec())
    }

    /// Casts the generic query to the given type: decodes the value at the head of its
    /// bytes. Bytes after that value are no error.
    pub fn cast<C: Encodable>(&self) -> (r: Result<C, DecodeError>)
        ensures
            match cast_of::<C>(self@) {
                Ok(v) => r matches Ok(x) && x@ == v,
                Err(e) => r matches Err(f) && f == e,
            },
    {
        match C::decode(self.0.as_slice()) {
            Ok((x, _)) => Ok(x),
            Err(e) => Err(e),
        }
    }

    /// A query made from a value casts back to that value.
    pub proof fn lemma_cast_from_canon<C: Encodable>(&self, c: &C)
        requires
            self@ == C::encoding(c@),
        ensures
            cast_of::<C>(self@) == Ok::<C::V, DecodeError>(c@),
    {
        lemma_cast_of_encoding(c);
    }
}

impl Clone for Query {
    /// A query with the same bytes.
    fn clone(&self) -> (r: Self)
        ensures
            r@ == self@,
    {
        Query(slice_to_vec(self.0.as_slice()))
    }
}

impl Default for Query {
    /// The query with no bytes.
    fn default() -> (r: Self)
        ensures
            r@ == Seq::<u8>::empty(),
    {
        Query(Vec::new())
    }
}

impl Encodable for Query {
    /// The length of the query as a varint, then its bytes.
    open spec fn encoding(v: Seq<u8>) -> Seq<u8> {
        bytes_encoding(v)
    }

    open spec fn decoding(bytes: Seq<u8>) -> Result<(Seq<u8>, nat), DecodeError> {
        bytes_decoding(bytes)
    }

    proof fn lemma_round_trip(&self, rest: Seq<u8>) {
        assert(self.0@.len() == self.0.len());
        lemma_bytes_round_trip(self@, rest);
    }

    proof fn lemma_decoding_consumes(bytes: Seq<u8>) {
        lemma_bytes_decoding_consumes(bytes);
    }

    fn encode_to_vec(&self) -> (bytes: Vec<u8>) {
        encode_bytes(self.0.as_slice())
    }

    fn decode(bytes: &[u8]) -> (r: Result<(Query, usize), DecodeError>) {
        match decode_bytes(bytes) {
            Ok((payload, n)) => Ok((Query(payload), n)),
            Err(e) => Err(e),
        }
    }
}

} // verus!
