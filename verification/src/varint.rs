//! Variable-length integers: base 128, least significant digit first, the high bit of
//! each byte saying whether another byte follows.

use crate::error::DecodeError;
use vstd::prelude::*;

verus! {

/// The longest run of bytes that is read as one integer.
pub const MAX_VARINT_BYTES: usize = 10;

/// 128 to the power `n`.
pub open spec fn pow128(n: nat) -> nat
    decreases n,
{
    if n == 0 {
        1
    } else {
        128 * pow128((n - 1) as nat)
    }
}

/// The bytes that stand for `v`: its digits in base 128 from the least significant on,
/// each but the last with 128 added.
pub open spec fn varint_encoding(v: nat) -> Seq<u8>
    decreases v,
{
    if v < 128 {
        seq![v as u8]
    } else {
        seq![(v % 128 + 128) as u8] + varint_encoding(v / 128)
    }
}

/// How many bytes the integer at the head of `bytes` takes: up to and including the
/// first byte below 128. `None` where no such byte comes.
pub open spec fn varint_len(bytes: Seq<u8>) -> Option<nat>
    decreases bytes.len(),
{
    if bytes.len() == 0 {
        None
    } else if bytes[0] < 128 {
        Some(1)
    } else {
        match varint_len(bytes.skip(1)) {
            Some(n) => Some(n + 1),
            None => None,
        }
    }
}

/// The number whose base 128 digits, least significant first, are the low seven bits
/// of the first `n` bytes.
pub open spec fn varint_value(bytes: Seq<u8>, n: nat) -> nat
    decreases n,
{
    if n == 0 {
        0
    } else {
        (bytes[0] % 128) as nat + 128 * varint_value(bytes.skip(1), (n - 1) as nat)
    }
}

/// What the head of `bytes` holds as an integer of 64 bits, and how many bytes stand
/// for it.
///
/// Bytes that end before a byte below 128, and runs of more than ten bytes, are not an
/// integer. Of a run of ten bytes the bits above the 64th are dropped.
pub open spec fn varint_decoding(bytes: Seq<u8>) -> Result<(u64, nat), DecodeError> {
    match varint_len(bytes) {
        None => Err(DecodeError::InvalidEncoding),
        Some(n) => if n > 10 {
            Err(DecodeError::InvalidEncoding)
        } else {
            Ok(((varint_value(bytes, n) % 0x1_0000_0000_0000_0000) as u64, n))
        },
    }
}

/// Larger exponents give larger powers.
pub proof fn lemma_pow128_monotonic(i: nat, j: nat)
    requires
        i <= j,
    ensures
        0 < pow128(i) <= pow128(j),
    decreases j,
{
    if j == 0 {
    } else if i == j {
        lemma_pow128_monotonic(0, (j - 1) as nat);
    } else {
        lemma_pow128_monotonic(i, (j - 1) as nat);
    }
}

/// The tenth power of 128 is the 70th power of two.
pub proof fn lemma_pow128_ten()
    ensures
        pow128(9) == 0x8000_0000_0000_0000,
        pow128(10) == 0x40_0000_0000_0000_0000,
{
    reveal_with_fuel(pow128, 11);
}

/// An encoding is never empty, and its last byte is the only one below 128.
pub proof fn lemma_encoding_shape(v: nat)
    ensures
        varint_encoding(v).len() >= 1,
        forall|i: int| 0 <= i < varint_encoding(v).len() - 1 ==> varint_encoding(v)[i] >= 128,
        varint_encoding(v)[varint_encoding(v).len() - 1] < 128,
    decreases v,
{
    if v >= 128 {
        lemma_encoding_shape(v / 128);
        let head = seq![(v % 128 + 128) as u8];
        let tail = varint_encoding(v / 128);
        assert forall|i: int| 0 <= i < (head + tail).len() - 1 implies (head + tail)[i] >= 128 by {
            if i > 0 {
                assert((head + tail)[i] == tail[i - 1]);
            }
        }
    }
}

/// A number below the `k`-th power of 128 is encoded in at most `k` bytes.
pub proof fn lemma_encoding_len(v: nat, k: nat)
    requires
        k >= 1,
        v < pow128(k),
    ensures
        varint_encoding(v).len() <= k,
    decreases k,
{
    if v >= 128 {
        if k == 1 {
            assert(pow128(1) == 128) by {
                reveal_with_fuel(pow128, 2);
            }
        } else {
            lemma_encoding_len(v / 128, (k - 1) as nat);
        }
    }
}

/// An integer of 64 bits is encoded in at most ten bytes.
pub proof fn lemma_encoding_len_u64(v: u64)
    ensures
        1 <= varint_encoding(v as nat).len() <= 10,
{
    lemma_pow128_ten();
    lemma_encoding_len(v as nat, 10);
    lemma_encoding_shape(v as nat);
}

/// Where the first `n` bytes are 128 or more and the next one is less, the integer at
/// the head takes `n + 1` bytes.
pub proof fn lemma_varint_len_found(bytes: Seq<u8>, n: nat)
    requires
        n < bytes.len(),
        forall|i: int| 0 <= i < n ==> bytes[i] >= 128,
        bytes[n as int] < 128,
    ensures
        varint_len(bytes) == Some(n + 1),
    decreases n,
{
    if n > 0 {
        let rest = bytes.skip(1);
        assert forall|i: int| 0 <= i < n - 1 implies rest[i] >= 128 by {
            assert(rest[i] == bytes[i + 1]);
        }
        lemma_varint_len_found(rest, (n - 1) as nat);
    }
}

/// Where every byte is 128 or more, no integer stands at the head.
pub proof fn lemma_varint_len_missing(bytes: Seq<u8>)
    requires
        forall|i: int| 0 <= i < bytes.len() ==> bytes[i] >= 128,
    ensures
        varint_len(bytes) is None,
    decreases bytes.len(),
{
    if bytes.len() > 0 {
        let rest = bytes.skip(1);
        assert forall|i: int| 0 <= i < rest.len() implies rest[i] >= 128 by {
            assert(rest[i] == bytes[i + 1]);
        }
        lemma_varint_len_missing(rest);
    }
}

/// The integer at the head ends inside the bytes.
pub proof fn lemma_varint_len_bound(bytes: Seq<u8>)
    ensures
        varint_len(bytes) matches Some(n) ==> 1 <= n <= bytes.len(),
    decreases bytes.len(),
{
    if bytes.len() > 0 && bytes[0] >= 128 {
        lemma_varint_len_bound(bytes.skip(1));
    }
}

/// One more byte adds its low seven bits, shifted past the digits before it.
pub proof fn lemma_varint_value_step(bytes: Seq<u8>, n: nat)
    requires
        n < bytes.len(),
    ensures
        varint_value(bytes, n + 1) == varint_value(bytes, n) + (bytes[n as int] % 128) * pow128(n),
        varint_value(bytes, n) < pow128(n),
    decreases n,
{
    if n == 0 {
        assert(varint_value(bytes.skip(1), 0) == 0);
        assert(varint_value(bytes, 0) == 0);
        assert(pow128(0) == 1);
    } else {
        let rest = bytes.skip(1);
        let m = (n - 1) as nat;
        lemma_varint_value_step(rest, m);
        assert(rest[m as int] == bytes[n as int]);
        let d = (bytes[n as int] % 128) as nat;
        let p = pow128(m);
        let low = (bytes[0] % 128) as nat;
        assert(pow128(n) == 128 * p);
        assert(varint_value(rest, n) == varint_value(rest, m) + d * p);
        assert(varint_value(bytes, n) == low + 128 * varint_value(rest, m));
        assert(varint_value(bytes, n + 1) == low + 128 * varint_value(rest, n));
        assert(128 * (varint_value(rest, m) + d * p) == 128 * varint_value(rest, m) + d * (128
            * p)) by (nonlinear_arith);
        assert(128 * varint_value(rest, m) < 128 * p);
    }
}

/// An encoding, whatever follows it, is read back as the number it stands for.
pub proof fn lemma_varint_round_trip(v: nat, rest: Seq<u8>)
    ensures
        varint_len(varint_encoding(v) + rest) == Some(varint_encoding(v).len()),
        varint_value(varint_encoding(v) + rest, varint_encoding(v).len()) == v,
    decreases v,
{
    let all = varint_encoding(v) + rest;
    if v < 128 {
        assert(all[0] == v as u8);
        assert(varint_value(all.skip(1), 0) == 0);
    } else {
        let tail = varint_encoding(v / 128);
        lemma_varint_round_trip(v / 128, rest);
        assert(all.skip(1) =~= tail + rest);
        assert(all[0] == (v % 128 + 128) as u8);
    }
}

/// An integer of 64 bits, encoded, is decoded as itself.
pub proof fn lemma_varint_round_trip_u64(v: u64, rest: Seq<u8>)
    ensures
        varint_decoding(varint_encoding(v as nat) + rest) == Ok::<(u64, nat), DecodeError>(
            (v, varint_encoding(v as nat).len()),
        ),
{
    lemma_varint_round_trip(v as nat, rest);
    lemma_encoding_len_u64(v);
}

/// Decoding consumes no more bytes than there are.
pub proof fn lemma_varint_decoding_consumes(bytes: Seq<u8>)
    ensures
        varint_decoding(bytes) matches Ok((_, n)) ==> 1 <= n <= bytes.len() && n <= 10,
{
    lemma_varint_len_bound(bytes);
}

/// Encodes an integer as a varint.
pub fn encode_varint(v: u64) -> (bytes: Vec<u8>)
    ensures
        bytes@ == varint_encoding(v as nat),
{
    let mut out: Vec<u8> = Vec::new();
    let mut n: u64 = v;
    while n >= 128
        invariant
            varint_encoding(v as nat) == out@ + varint_encoding(n as nat),
        decreases n,
    {
        let b: u8 = (n % 128 + 128) as u8;
        proof {
            let rest = varint_encoding((n / 128) as nat);
            assert(out@.push(b) + rest =~= out@ + (seq![b] + rest));
        }
        out.push(b);
        n = n / 128;
    }
    out.push(n as u8);
    out
}

/// Decodes the varint at the head of `bytes`: the integer and the number of bytes read.
pub fn decode_varint(bytes: &[u8]) -> (r: Result<(u64, usize), DecodeError>)
    ensures
        match varint_decoding(bytes@) {
            Ok((v, n)) => r == Ok::<(u64, usize), DecodeError>((v, n as usize)),
            Err(e) => r == Err::<(u64, usize), DecodeError>(e),
        },
{
    let mut last: usize = 0;
    while last < bytes.len() && bytes[last] >= 128
        invariant
            last <= bytes@.len(),
            forall|i: int| 0 <= i < last ==> bytes@[i] >= 128,
        decreases bytes@.len() - last,
    {
        last += 1;
    }
    if last == bytes.len() {
        proof {
            lemma_varint_len_missing(bytes@);
        }
        return Err(DecodeError::InvalidEncoding);
    }
    proof {
        lemma_varint_len_found(bytes@, last as nat);
    }
    if last >= MAX_VARINT_BYTES {
        return Err(DecodeError::InvalidEncoding);
    }
    let len: usize = last + 1;
    let mut acc: u128 = 0;
    let mut scale: u128 = 1;
    let mut i: usize = 0;
    while i < len
        invariant
            i <= len <= 10,
            len <= bytes@.len(),
            scale == pow128(i as nat),
            acc == varint_value(bytes@, i as nat),
            acc < scale,
        decreases len - i,
    {
        let d: u128 = (bytes[i] % 128) as u128;
        proof {
            lemma_varint_value_step(bytes@, i as nat);
            lemma_pow128_monotonic(i as nat, 9);
            lemma_pow128_ten();
            assert(d * scale <= 127 * scale) by (nonlinear_arith)
                requires
                    d <= 127,
                    scale >= 0,
            ;
        }
        acc = acc + d * scale;
        scale = scale * 128;
        i += 1;
    }
    Ok(((acc % 0x1_0000_0000_0000_0000) as u64, len))
}

} // verus!
