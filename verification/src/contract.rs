//! Contract identities and contract state.

use crate::encoding::{
    bytes_decoding, bytes_encoding, cast_of, decode_bytes, encode_bytes,
    lemma_bytes_decoding_consumes, lemma_bytes_round_trip, lemma_cast_of_encoding, Encodable,
};
use crate::error::DecodeError;
use crate::hex::{format_hex, hex_format, hex_text};
use crate::order::{bytes_order, compare_bytes, lemma_order_equal, ByteOrder};
use std::cmp::Ordering;
use vstd::prelude::*;
use vstd::slice::{slice_subrange, slice_to_vec};

verus! {

/// Number of bytes in a contract identity.
pub const CONTRACT_ID_BYTES: usize = 32;

/// Type used to identify a contract.
///
/// Its view is the sequence of its 32 bytes.
#[derive(Clone, Copy, Debug, Hash, Eq, Ord)]
pub struct ContractId([u8; 32]);

impl View for ContractId {
    type V = Seq<u8>;

    closed spec fn view(&self) -> Seq<u8> {
        self.0@
    }
}

impl ContractId {
    /// The identity that `from_raw` builds from an array.
    pub closed spec fn spec_from_raw(b: [u8; 32]) -> Self {
        ContractId(b)
    }

    /// The bytes of a reserved identity: the given byte, then 31 zero bytes.
    pub open spec fn reserved_bytes(id: u8) -> Seq<u8> {
        Seq::new(32, |i: int| if i == 0 { id } else { 0u8 })
    }

    /// Every identity has exactly 32 bytes.
    pub proof fn lemma_len(&self)
        ensures
            self@.len() == 32,
    {
    }

    /// An identity made from an array holds the bytes of the array, which `as_bytes`
    /// gives back.
    pub proof fn lemma_from_raw_bytes(b: [u8; 32])
        ensures
            Self::spec_from_raw(b)@ == b@,
            Self::spec_from_raw(b)@.len() == 32,
    {
    }

    /// A reserved identity has 32 bytes: the given one first, zeros after it.
    pub proof fn lemma_reserved_bytes(id: u8)
        ensures
            Self::reserved_bytes(id).len() == 32,
            Self::reserved_bytes(id)[0] == id,
            forall|i: int| 1 <= i < 32 ==> Self::reserved_bytes(id)[i] == 0,
    {
    }

    /// Return a reserved contract id for host fn modules.
    pub fn reserved(id: u8) -> (r: Self)
        ensures
            r@ == Self::reserved_bytes(id),
    {
        let mut bytes = [0u8; 32];
        bytes[0] = id;
        let r = ContractId(bytes);
        assert(r@ =~= Self::reserved_bytes(id));
        r
    }

    /// Returns the contract id as a byte slice.
    pub fn as_bytes(&self) -> (r: &[u8])
        ensures
            r@ == self@,
            r@.len() == 32,
    {
        &self.0
    }

    /// Returns the contract id as a mutable slice, through which it can be filled in place.
    pub fn as_bytes_mut(&mut self) -> (r: &mut [u8])
        ensures
            r@ == old(self)@,
            final(self)@ == final(r)@,
    {
        &mut self.0
    }

    /// Returns a `ContractId` from an array of 32 bytes.
    pub fn from_raw(b: [u8; 32]) -> (r: Self)
        ensures
            r == Self::spec_from_raw(b),
            r@ == b@,
    {
        Self(b)
    }

    /// The bytes of the identity as an array.
    pub fn to_raw(&self) -> (b: [u8; 32])
        ensures
            b@ == self@,
    {
        self.0
    }

    /// The identity as hexadecimal text: two digits for each byte, the letters in upper
    /// case where `upper` is set, after `0x` where `alternate` is set.
    pub fn to_hex(&self, upper: bool, alternate: bool) -> (s: String)
        ensures
            s@ == hex_format(self@, upper, alternate),
    {
        format_hex(self.as_bytes(), upper, alternate)
    }

    /// The identity as it is displayed: in lower case hexadecimal digits.
    pub fn to_string(&self) -> (s: String)
        ensures
            s@ == hex_text(self@, false),
    {
        format_hex(self.as_bytes(), false, false)
    }

    /// Returns a `ContractId` from a byte sequence, which must hold exactly 32 bytes:
    /// any other length is an invalid encoding.
    pub fn from_slice(bytes: &[u8]) -> (r: Result<Self, DecodeError>)
        ensures
            bytes@.len() == 32 ==> (r matches Ok(id) && id@ == bytes@),
            bytes@.len() != 32 ==> (r matches Err(e) && e == DecodeError::InvalidEncoding),
    {
        if bytes.len() != CONTRACT_ID_BYTES {
            return Err(DecodeError::InvalidEncoding);
        }
        let mut raw = [0u8; 32];
        let mut i: usize = 0;
        while i < CONTRACT_ID_BYTES
            invariant
                i <= 32,
                bytes@.len() == 32,
                forall|j: int| 0 <= j < i ==> raw@[j] == bytes@[j],
            decreases 32 - i,
        {
            raw[i] = bytes[i];
            i += 1;
        }
        let id = ContractId(raw);
        assert(id@ =~= bytes@);
        Ok(id)
    }
}

impl Encodable for ContractId {
    /// The 32 bytes as they are.
    open spec fn encoding(v: Seq<u8>) -> Seq<u8> {
        v
    }

    /// The first 32 bytes. Fewer bytes are an invalid encoding.
    open spec fn decoding(bytes: Seq<u8>) -> Result<(Seq<u8>, nat), DecodeError> {
        if bytes.len() < 32 {
            Err(DecodeError::InvalidEncoding)
        } else {
            Ok((bytes.subrange(0, 32), 32))
        }
    }

    proof fn lemma_round_trip(&self, rest: Seq<u8>) {
        assert((self@ + rest).subrange(0, 32) =~= self@);
    }

    proof fn lemma_decoding_consumes(bytes: Seq<u8>) {
    }

    fn encode_to_vec(&self) -> (bytes: Vec<u8>) {
        slice_to_vec(self.as_bytes())
    }

    fn decode(bytes: &[u8]) -> (r: Result<(ContractId, usize), DecodeError>) {
        if bytes.len() < CONTRACT_ID_BYTES {
            return Err(DecodeError::InvalidEncoding);
        }
        match ContractId::from_slice(slice_subrange(bytes, 0, CONTRACT_ID_BYTES)) {
            Ok(id) => Ok((id, CONTRACT_ID_BYTES)),
            Err(e) => Err(e),
        }
    }
}

/// The std ordering that stands for a byte order.
pub open spec fn ordering_of(order: ByteOrder) -> Ordering {
    match order {
        ByteOrder::Less => Ordering::Less,
        ByteOrder::Equal => Ordering::Equal,
        ByteOrder::Greater => Ordering::Greater,
    }
}

impl PartialEq for ContractId {
    /// Two identities are equal where all their 32 bytes are.
    fn eq(&self, other: &Self) -> (r: bool) {
        proof {
            lemma_order_equal(self@, other@);
        }
        match compare_bytes(self.as_bytes(), other.as_bytes()) {
            ByteOrder::Equal => true,
            _ => false,
        }
    }
}

impl vstd::std_specs::cmp::PartialEqSpecImpl for ContractId {
    open spec fn obeys_eq_spec() -> bool {
        true
    }

    open spec fn eq_spec(&self, other: &Self) -> bool {
        self@ == other@
    }
}

impl PartialOrd for ContractId {
    /// Identities are ordered byte by byte, from the first byte on.
    fn partial_cmp(&self, other: &Self) -> (r: Option<Ordering>) {
        match compare_bytes(self.as_bytes(), other.as_bytes()) {
            ByteOrder::Less => Some(Ordering::Less),
            ByteOrder::Equal => Some(Ordering::Equal),
            ByteOrder::Greater => Some(Ordering::Greater),
        }
    }
}

impl vstd::std_specs::cmp::PartialOrdSpecImpl for ContractId {
    open spec fn obeys_partial_cmp_spec() -> bool {
        true
    }

    open spec fn partial_cmp_spec(&self, other: &Self) -> Option<Ordering> {
        Some(ordering_of(bytes_order(self@, other@)))
    }
}

impl Default for ContractId {
    /// The identity whose bytes are all zero.
    fn default() -> (r: Self)
        ensures
            r@ == Seq::new(32, |i: int| 0u8),
    {
        let r = ContractId([0u8; 32]);
        assert(r@ =~= Seq::new(32, |i: int| 0u8));
        r
    }
}

/// Bytes representing a contract state.
///
/// Its view is the sequence of the bytes it wraps.
#[derive(Debug)]
pub struct ContractState(Vec<u8>);

impl View for ContractState {
    type V = Seq<u8>;

    closed spec fn view(&self) -> Seq<u8> {
        self.0@
    }
}

impl ContractState {
    /// Returns the state of the contract as bytes.
    pub fn as_bytes(&self) -> (r: &[u8])
        ensures
            r@ == self@,
    {
        self.0.as_slice()
    }

    /// Creates a state from raw bytes, which it wraps as they are.
    pub fn from_slice(buffer: &[u8]) -> (r: Self)
        ensures
            r@ == buffer@,
    {
        ContractState(slice_to_vec(buffer))
    }

    /// Creates a state that owns the given bytes.
    pub fn from_vec(bytes: Vec<u8>) -> (r: Self)
        ensures
            r@ == bytes@,
    {
        ContractState(bytes)
    }

    /// Creates a state from an encodable value: it wraps the value's encoding.
    pub fn from_canon<C: Encodable>(c: &C) -> (r: Self)
        ensures
            r@ == C::encoding(c@),
    {
        ContractState(c.encode_to_vec())
    }

    /// Casts the state to the given type: decodes the value at the head of its
    /// bytes. Bytes after that value are no error.
    pub fn cast<C: Encodable>(&self) -> (r: Result<C, DecodeError>)
        ensures
            match cast_of::<C>(self@) {
                Ok(v) => r matches Ok(x) && x@ == v,
                Err(e) => r matches Err(f) && f == e,
            },
    {
        match C::decode(self.0.as_slice()) {
            Ok((x, _)) => Ok(x),
            Err(e) => Err(e),
        }
    }

    /// A state made from a value casts back to that value.
    pub proof fn lemma_cast_from_canon<C: Encodable>(&self, c: &C)
        requires
            self@ == C::encoding(c@),
        ensures
            cast_of::<C>(self@) == Ok::<C::V, DecodeError>(c@),
    {
        lemma_cast_of_encoding(c);
    }
}

impl Clone for ContractState {
    /// A state with the same bytes.
    fn clone(&self) -> (r: Self)
        ensures
            r@ == self@,
    {
        ContractState(slice_to_vec(self.0.as_slice()))
    }
}

impl Default for ContractState {
    /// The state with no bytes.
    fn default() -> (r: Self)
        ensures
            r@ == Seq::<u8>::empty(),
    {
        ContractState(Vec::new())
    }
}

impl Encodable for ContractState {
    /// The length of the state as a varint, then its bytes.
    open spec fn encoding(v: Seq<u8>) -> Seq<u8> {
        bytes_encoding(v)
    }

    open spec fn decoding(bytes: Seq<u8>) -> Result<(Seq<u8>, nat), DecodeError> {
        bytes_decoding(bytes)
    }

    proof fn lemma_round_trip(&self, rest: Seq<u8>) {
        assert(self.0@.len() == self.0.len());
        lemma_bytes_round_trip(self@, rest);
    }

    proof fn lemma_decoding_consumes(bytes: Seq<u8>) {
        lemma_bytes_decoding_consumes(bytes);
    }

    fn encode_to_vec(&self) -> (bytes: Vec<u8>) {
        encode_bytes(self.0.as_slice())
    }

    fn decode(bytes: &[u8]) -> (r: Result<(ContractState, usize), DecodeError>) {
        match decode_bytes(bytes) {
            Ok((payload, n)) => Ok((ContractState(payload), n)),
            Err(e) => Err(e),
        }
    }
}

} // verus!
