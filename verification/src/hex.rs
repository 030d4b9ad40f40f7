//! Bytes written out as hexadecimal digits, two for each byte.

use vstd::prelude::*;
use vstd::string::*;

verus! {

/// The sixteen digits, with the letters in upper or in lower case.
pub open spec fn hex_digits(upper: bool) -> Seq<char> {
    if upper {
        "0123456789ABCDEF"@
    } else {
        "0123456789abcdef"@
    }
}

/// The digit at position `i` of the text that stands for `bytes`: the high half of a
/// byte comes first, the low half second.
pub open spec fn hex_digit_at(bytes: Seq<u8>, upper: bool, i: int) -> char {
    let byte = bytes[i / 2];
    if i % 2 == 0 {
        hex_digits(upper)[(byte / 16) as int]
    } else {
        hex_digits(upper)[(byte % 16) as int]
    }
}

/// The text that stands for `bytes`: two digits for each byte, in the order of the bytes.
pub open spec fn hex_text(bytes: Seq<u8>, upper: bool) -> Seq<char> {
    Seq::new(2 * bytes.len(), |i: int| hex_digit_at(bytes, upper, i))
}

/// The text of `bytes`, after `0x` where `alternate` asks for it.
pub open spec fn hex_format(bytes: Seq<u8>, upper: bool, alternate: bool) -> Seq<char> {
    if alternate {
        "0x"@ + hex_text(bytes, upper)
    } else {
        hex_text(bytes, upper)
    }
}

/// Appends to `out` the text that stands for `bytes`.
pub fn push_hex(out: &mut String, bytes: &[u8], upper: bool)
    ensures
        final(out)@ == old(out)@ + hex_text(bytes@, upper),
{
    let digits: &str = if upper {
        "0123456789ABCDEF"
    } else {
        "0123456789abcdef"
    };
    proof {
        reveal_strlit("0123456789ABCDEF");
        reveal_strlit("0123456789abcdef");
    }
    let ghost start = out@;
    let mut i: usize = 0;
    while i < bytes.len()
        invariant
            i <= bytes@.len(),
            digits@ == hex_digits(upper),
            digits@.len() == 16,
            digits.is_ascii(),
            out@ == start + hex_text(bytes@.subrange(0, i as int), upper),
        decreases bytes@.len() - i,
    {
        let byte: u8 = bytes[i];
        let high: usize = (byte / 16) as usize;
        let low: usize = (byte % 16) as usize;
        out.append(digits.substring_ascii(high, high + 1));
        out.append(digits.substring_ascii(low, low + 1));
        i += 1;
        proof {
            let before = bytes@.subrange(0, i - 1);
            let now = bytes@.subrange(0, i as int);
            assert forall|k: int| 0 <= k < 2 * (i - 1) implies hex_digit_at(now, upper, k)
                == hex_digit_at(before, upper, k) by {
                assert(now[k / 2] == before[k / 2]);
            }
            assert(out@ =~= start + hex_text(now, upper));
        }
    }
    assert(bytes@.subrange(0, i as int) =~= bytes@);
}

/// The text that stands for `bytes`, after `0x` where `alternate` asks for it.
pub fn format_hex(bytes: &[u8], upper: bool, alternate: bool) -> (out: String)
    ensures
        out@ == hex_format(bytes@, upper, alternate),
{
    let mut out = String::new();
    if alternate {
        out.append("0x");
    }
    push_hex(&mut out, bytes, upper);
    out
}

} // verus!
