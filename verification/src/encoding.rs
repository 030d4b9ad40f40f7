//! The encoding capability: how a typed value becomes bytes and how bytes become a
//! typed value again.
//!
//! Every encodable type says, over its view, which bytes stand for a value and what the
//! head of a byte sequence decodes to. Decoding reads only as many bytes as the value
//! takes, so values can be packed one after the other.

use crate::error::DecodeError;
use crate::varint::{
    decode_varint, encode_varint, lemma_varint_decoding_consumes, lemma_varint_round_trip_u64,
    varint_decoding, varint_encoding,
};
use vstd::prelude::*;
use vstd::slice::{slice_subrange, slice_to_vec};

verus! {

/// A type whose values can be encoded into bytes and decoded from them.
pub trait Encodable: View + Sized {
    /// The bytes that stand for the value with view `v`.
    spec fn encoding(v: Self::V) -> Seq<u8>;

    /// What the head of `bytes` decodes to: the view of the value and the number of
    /// bytes that stand for it, or the reason why no value stands there.
    spec fn decoding(bytes: Seq<u8>) -> Result<(Self::V, nat), DecodeError>;

    /// The encoding of a value, whatever follows it, decodes to that value and ends
    /// where the encoding ends.
    proof fn lemma_round_trip(&self, rest: Seq<u8>)
        ensures
            Self::decoding(Self::encoding(self@) + rest) == Ok::<(Self::V, nat), DecodeError>(
                (self@, Self::encoding(self@).len()),
            ),
    ;

    /// Decoding consumes no more bytes than there are.
    proof fn lemma_decoding_consumes(bytes: Seq<u8>)
        ensures
            Self::decoding(bytes) matches Ok((_, n)) ==> n <= bytes.len(),
    ;

    /// Encodes the value into a fresh vector.
    fn encode_to_vec(&self) -> (bytes: Vec<u8>)
        ensures
            bytes@ == Self::encoding(self@),
    ;

    /// Decodes the value at the head of `bytes`, and says how many bytes it took.
    /// Bytes after the value are not looked at.
    fn decode(bytes: &[u8]) -> (r: Result<(Self, usize), DecodeError>)
        ensures
            match Self::decoding(bytes@) {
                Ok((v, n)) => r matches Ok((x, k)) && x@ == v && k == n && k <= bytes@.len(),
                Err(e) => r matches Err(f) && f == e,
            },
    ;
}

/// What a cast to `C` gives for `bytes`: the view of the value at their head. Bytes after
/// that value do not count.
pub open spec fn cast_of<C: Encodable>(bytes: Seq<u8>) -> Result<C::V, DecodeError> {
    match C::decoding(bytes) {
        Ok((v, _)) => Ok(v),
        Err(e) => Err(e),
    }
}

/// The encoding of a value casts back to that value.
pub proof fn lemma_cast_of_encoding<C: Encodable>(c: &C)
    ensures
        cast_of::<C>(C::encoding(c@)) == Ok::<C::V, DecodeError>(c@),
{
    c.lemma_round_trip(Seq::empty());
    assert(C::encoding(c@) + Seq::<u8>::empty() =~= C::encoding(c@));
}

/// A byte string on the wire: its length as a varint, then its bytes.
pub open spec fn bytes_encoding(payload: Seq<u8>) -> Seq<u8> {
    varint_encoding(payload.len()) + payload
}

/// The byte string at the head of `bytes` and the number of bytes that it takes with its
/// length. A length that reaches past the end of `bytes` is an invalid encoding.
pub open spec fn bytes_decoding(bytes: Seq<u8>) -> Result<(Seq<u8>, nat), DecodeError> {
    match varint_decoding(bytes) {
        Err(e) => Err(e),
        Ok((len, k)) => if k + len <= bytes.len() {
            Ok((bytes.subrange(k as int, (k + len) as int), (k + len) as nat))
        } else {
            Err(DecodeError::InvalidEncoding)
        },
    }
}

/// A byte string of a length that fits 64 bits, encoded, decodes to itself.
pub proof fn lemma_bytes_round_trip(payload: Seq<u8>, rest: Seq<u8>)
    requires
        payload.len() <= u64::MAX,
    ensures
        bytes_decoding(bytes_encoding(payload) + rest) == Ok::<(Seq<u8>, nat), DecodeError>(
            (payload, bytes_encoding(payload).len()),
        ),
{
    let head = varint_encoding(payload.len());
    let all = bytes_encoding(payload) + rest;
    assert(all =~= head + (payload + rest));
    lemma_varint_round_trip_u64(payload.len() as u64, payload + rest);
    assert(all.subrange(head.len() as int, (head.len() + payload.len()) as int) =~= payload);
}

/// Decoding a byte string consumes no more bytes than there are.
pub proof fn lemma_bytes_decoding_consumes(bytes: Seq<u8>)
    ensures
        bytes_decoding(bytes) matches Ok((payload, n)) ==> n <= bytes.len() && payload.len() < n,
{
    lemma_varint_decoding_consumes(bytes);
}

/// Encodes a byte string: its length, then its bytes.
pub fn encode_bytes(payload: &[u8]) -> (bytes: Vec<u8>)
    ensures
        bytes@ == bytes_encoding(payload@),
{
    let mut out = encode_varint(payload.len() as u64);
    let ghost head = out@;
    let mut i: usize = 0;
    while i < payload.len()
        invariant
            i <= payload@.len(),
            out@ == head + payload@.subrange(0, i as int),
        decreases payload@.len() - i,
    {
        proof {
            assert(payload@.subrange(0, i + 1) =~= payload@.subrange(0, i as int).push(
                payload@[i as int],
            ));
        }
        out.push(payload[i]);
        i += 1;
    }
    out
}

/// Decodes the byte string at the head of `bytes`.
pub fn decode_bytes(bytes: &[u8]) -> (r: Result<(Vec<u8>, usize), DecodeError>)
    ensures
        match bytes_decoding(bytes@) {
            Ok((v, n)) => r matches Ok((x, k)) && x@ == v && k == n && k <= bytes@.len(),
            Err(e) => r matches Err(f) && f == e,
        },
{
    proof {
        lemma_varint_decoding_consumes(bytes@);
    }
    match decode_varint(bytes) {
        Err(e) => Err(e),
        Ok((len, k)) => {
            if len > (bytes.len() - k) as u64 {
                return Err(DecodeError::InvalidEncoding);
            }
            let end: usize = k + len as usize;
            let payload = slice_to_vec(slice_subrange(bytes, k, end));
            Ok((payload, end))
        },
    }
}

impl Encodable for u8 {
    /// A byte stands for itself.
    open spec fn encoding(v: u8) -> Seq<u8> {
        seq![v]
    }

    open spec fn decoding(bytes: Seq<u8>) -> Result<(u8, nat), DecodeError> {
        if bytes.len() == 0 {
            Err(DecodeError::InvalidEncoding)
        } else {
            Ok((bytes[0], 1))
        }
    }

    proof fn lemma_round_trip(&self, rest: Seq<u8>) {
    }

    proof fn lemma_decoding_consumes(bytes: Seq<u8>) {
    }

    fn encode_to_vec(&self) -> (bytes: Vec<u8>) {
        let mut out = Vec::new();
        out.push(*self);
        out
    }

    fn decode(bytes: &[u8]) -> (r: Result<(u8, usize), DecodeError>) {
        if bytes.len() == 0 {
            Err(DecodeError::InvalidEncoding)
        } else {
            Ok((bytes[0], 1))
        }
    }
}

impl Encodable for bool {
    /// One byte: 1 for `true`, 0 for `false`.
    open spec fn encoding(v: bool) -> Seq<u8> {
        if v {
            seq![1u8]
        } else {
            seq![0u8]
        }
    }

    open spec fn decoding(bytes: Seq<u8>) -> Result<(bool, nat), DecodeError> {
        if bytes.len() == 0 {
            Err(DecodeError::InvalidEncoding)
        } else if bytes[0] == 0 {
            Ok((false, 1))
        } else if bytes[0] == 1 {
            Ok((true, 1))
        } else {
            Err(DecodeError::InvalidEncoding)
        }
    }

    proof fn lemma_round_trip(&self, rest: Seq<u8>) {
    }

    proof fn lemma_decoding_consumes(bytes: Seq<u8>) {
    }

    fn encode_to_vec(&self) -> (bytes: Vec<u8>) {
        let mut out = Vec::new();
        if *self {
            out.push(1u8);
        } else {
            out.push(0u8);
        }
        out
    }

    fn decode(bytes: &[u8]) -> (r: Result<(bool, usize), DecodeError>) {
        if bytes.len() == 0 {
            Err(DecodeError::InvalidEncoding)
        } else if bytes[0] == 0 {
            Ok((false, 1))
        } else if bytes[0] == 1 {
            Ok((true, 1))
        } else {
            Err(DecodeError::InvalidEncoding)
        }
    }
}

impl Encodable for u64 {
    /// A varint.
    open spec fn encoding(v: u64) -> Seq<u8> {
        varint_encoding(v as nat)
    }

    open spec fn decoding(bytes: Seq<u8>) -> Result<(u64, nat), DecodeError> {
        varint_decoding(bytes)
    }

    proof fn lemma_round_trip(&self, rest: Seq<u8>) {
        lemma_varint_round_trip_u64(*self, rest);
    }

    proof fn lemma_decoding_consumes(bytes: Seq<u8>) {
        lemma_varint_decoding_consumes(bytes);
    }

    fn encode_to_vec(&self) -> (bytes: Vec<u8>) {
        encode_varint(*self)
    }

    fn decode(bytes: &[u8]) -> (r: Result<(u64, usize), DecodeError>) {
        proof {
            lemma_varint_decoding_consumes(bytes@);
        }
        decode_varint(bytes)
    }
}

impl Encodable for u32 {
    /// A varint.
    open spec fn encoding(v: u32) -> Seq<u8> {
        varint_encoding(v as nat)
    }

    /// The varint at the head, of which the low 32 bits are kept.
    open spec fn decoding(bytes: Seq<u8>) -> Result<(u32, nat), DecodeError> {
        match varint_decoding(bytes) {
            Err(e) => Err(e),
            Ok((v, n)) => Ok(((v % 0x1_0000_0000) as u32, n)),
        }
    }

    proof fn lemma_round_trip(&self, rest: Seq<u8>) {
        lemma_varint_round_trip_u64(*self as u64, rest);
    }

    proof fn lemma_decoding_consumes(bytes: Seq<u8>) {
        lemma_varint_decoding_consumes(bytes);
    }

    fn encode_to_vec(&self) -> (bytes: Vec<u8>) {
        encode_varint(*self as u64)
    }

    fn decode(bytes: &[u8]) -> (r: Result<(u32, usize), DecodeError>) {
        proof {
            lemma_varint_decoding_consumes(bytes@);
        }
        match decode_varint(bytes) {
            Err(e) => Err(e),
            Ok((v, n)) => Ok(((v % 0x1_0000_0000) as u32, n)),
        }
    }
}

impl Encodable for () {
    /// No bytes.
    open spec fn encoding(v: ()) -> Seq<u8> {
        Seq::empty()
    }

    open spec fn decoding(bytes: Seq<u8>) -> Result<((), nat), DecodeError> {
        Ok(((), 0))
    }

    proof fn lemma_round_trip(&self, rest: Seq<u8>) {
    }

    proof fn lemma_decoding_consumes(bytes: Seq<u8>) {
    }

    fn encode_to_vec(&self) -> (bytes: Vec<u8>) {
        Vec::new()
    }

    fn decode(bytes: &[u8]) -> (r: Result<((), usize), DecodeError>) {
        Ok(((), 0))
    }
}

impl Encodable for Vec<u8> {
    /// The length as a varint, then the bytes.
    open spec fn encoding(v: Seq<u8>) -> Seq<u8> {
        bytes_encoding(v)
    }

    open spec fn decoding(bytes: Seq<u8>) -> Result<(Seq<u8>, nat), DecodeError> {
        bytes_decoding(bytes)
    }

    proof fn lemma_round_trip(&self, rest: Seq<u8>) {
        assert(self@.len() == self.len());
        lemma_bytes_round_trip(self@, rest);
    }

    proof fn lemma_decoding_consumes(bytes: Seq<u8>) {
        lemma_bytes_decoding_consumes(bytes);
    }

    fn encode_to_vec(&self) -> (bytes: Vec<u8>) {
        encode_bytes(self.as_slice())
    }

    fn decode(bytes: &[u8]) -> (r: Result<(Vec<u8>, usize), DecodeError>) {
        decode_bytes(bytes)
    }
}

impl<A: Encodable, B: Encodable> Encodable for (A, B) {
    /// The first, then the second.
    open spec fn encoding(v: (A::V, B::V)) -> Seq<u8> {
        A::encoding(v.0) + B::encoding(v.1)
    }

    open spec fn decoding(bytes: Seq<u8>) -> Result<((A::V, B::V), nat), DecodeError> {
        match A::decoding(bytes) {
            Err(e) => Err(e),
            Ok((a, n)) => match B::decoding(bytes.skip(n as int)) {
                Err(e) => Err(e),
                Ok((b, m)) => Ok(((a, b), n + m)),
            },
        }
    }

    proof fn lemma_round_trip(&self, rest: Seq<u8>) {
        let first = A::encoding(self.0@);
        let second = B::encoding(self.1@);
        self.0.lemma_round_trip(second + rest);
        self.1.lemma_round_trip(rest);
        assert((first + second) + rest =~= first + (second + rest));
        assert((first + (second + rest)).skip(first.len() as int) =~= second + rest);
    }

    proof fn lemma_decoding_consumes(bytes: Seq<u8>) {
        A::lemma_decoding_consumes(bytes);
        if let Ok((_, n)) = A::decoding(bytes) {
            B::lemma_decoding_consumes(bytes.skip(n as int));
        }
    }

    fn encode_to_vec(&self) -> (bytes: Vec<u8>) {
        let mut out = self.0.encode_to_vec();
        let mut second = self.1.encode_to_vec();
        out.append(&mut second);
        out
    }

    fn decode(bytes: &[u8]) -> (r: Result<((A, B), usize), DecodeError>) {
        proof {
            Self::lemma_decoding_consumes(bytes@);
        }
        match A::decode(bytes) {
            Err(e) => Err(e),
            Ok((a, n)) => {
                let rest = slice_subrange(bytes, n, bytes.len());
                match B::decode(rest) {
                    Err(e) => Err(e),
                    Ok((b, m)) => Ok(((a, b), n + m)),
                }
            },
        }
    }
}

} // verus!
