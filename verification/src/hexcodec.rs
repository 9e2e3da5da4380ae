//! Hex text for diagnostic payloads: what the `hex` crate reads and writes,
//! stated over characters.

use vstd::prelude::*;

use crate::text::{str_trim, trim_spec};

verus! {

/// Value of a hex digit of either case.
pub open spec fn hex_digit_value(c: char) -> Option<u8> {
    if '0' <= c && c <= '9' {
        Some((c as int - '0' as int) as u8)
    } else if 'a' <= c && c <= 'f' {
        Some((c as int - 'a' as int + 10) as u8)
    } else if 'A' <= c && c <= 'F' {
        Some((c as int - 'A' as int + 10) as u8)
    } else {
        None
    }
}

/// Text that decodes: an even number of hex digits.
pub open spec fn is_hex_text(s: Seq<char>) -> bool {
    &&& s.len() % 2 == 0
    &&& forall|i: int| 0 <= i < s.len() ==> #[trigger] hex_digit_value(s[i]) is Some
}

/// The byte that digits `2 * i` and `2 * i + 1` stand for, high nibble first.
pub open spec fn hex_pair_value(s: Seq<char>, i: int) -> u8 {
    (hex_digit_value(s[2 * i])->0 * 16 + hex_digit_value(s[2 * i + 1])->0) as u8
}

/// The bytes that hex text stands for, or `None` when it is not hex text.
pub open spec fn hex_decode_spec(s: Seq<char>) -> Option<Seq<u8>> {
    if is_hex_text(s) {
        Some(Seq::new(s.len() / 2, |i: int| hex_pair_value(s, i)))
    } else {
        None
    }
}

/// The lower-case hex digit for a nibble.
pub open spec fn lower_hex_digit(v: int) -> char {
    if v < 10 {
        (v + '0' as int) as char
    } else {
        (v - 10 + 'a' as int) as char
    }
}

/// Lower-case hex text of some bytes: two digits per byte, high nibble
/// first.
pub open spec fn hex_encode_spec(b: Seq<u8>) -> Seq<char> {
    Seq::new(
        2 * b.len(),
        |i: int|
            if i % 2 == 0 {
                lower_hex_digit(b[i / 2] as int / 16)
            } else {
                lower_hex_digit(b[i / 2] as int % 16)
            },
    )
}

/// `hex::decode`: the bytes that the text stands for, or `None` where the
/// crate reports an error (odd length or a character that is not a hex
/// digit; the crate reads the UTF-8 bytes, and a character outside ASCII
/// fails in either way). Which error the crate reports is not kept.
#[verifier::external_body]
pub(crate) fn hex_decode(text: &str) -> (r: Option<Vec<u8>>)
    ensures
        match r {
            Some(v) => hex_decode_spec(text@) == Some(v@),
            None => hex_decode_spec(text@) is None,
        },
{
    hex::decode(text).ok()
}

/// `hex::encode`: lower-case hex text, two digits per byte, high nibble
/// first.
#[verifier::external_body]
pub(crate) fn hex_encode(bytes: &[u8]) -> (r: String)
    ensures
        r@ == hex_encode_spec(bytes@),
{
    hex::encode(bytes)
}

/// The bytes of a hex payload in a request, surrounding whitespace
/// ignored; `None` when the text is not hex.
pub fn decode_hex_payload(raw: &str) -> (r: Option<Vec<u8>>)
    ensures
        match r {
            Some(v) => hex_decode_spec(trim_spec(raw@)) == Some(v@),
            None => hex_decode_spec(trim_spec(raw@)) is None,
        },
{
    hex_decode(str_trim(raw))
}

proof fn lemma_lower_hex_digit(v: int)
    requires
        0 <= v < 16,
    ensures
        hex_digit_value(lower_hex_digit(v)) == Some(v as u8),
{
}

/// Hex text that a payload is encoded to decodes to that payload again.
pub proof fn lemma_hex_round_trip(b: Seq<u8>)
    ensures
        hex_decode_spec(hex_encode_spec(b)) == Some(b),
{
    let s = hex_encode_spec(b);
    assert forall|i: int| 0 <= i < s.len() implies #[trigger] hex_digit_value(s[i]) is Some by {
        lemma_lower_hex_digit(b[i / 2] as int / 16);
        lemma_lower_hex_digit(b[i / 2] as int % 16);
    }
    assert(s.len() % 2 == 0);
    let d = Seq::new(s.len() / 2, |i: int| hex_pair_value(s, i));
    assert forall|i: int| 0 <= i < b.len() implies d[i] == b[i] by {
        assert((2 * i) / 2 == i);
        assert((2 * i + 1) / 2 == i);
        assert((2 * i) % 2 == 0);
        assert((2 * i + 1) % 2 == 1);
        lemma_lower_hex_digit(b[i] as int / 16);
        lemma_lower_hex_digit(b[i] as int % 16);
    }
    assert(d =~= b);
}

} // verus!
