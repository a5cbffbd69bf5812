//! Percent-encoding of byte strings, as the identifier tokens use it.
use vstd::prelude::*;

verus! {

/// The byte '%'.
pub const PERCENT: u8 = 37;

/// Bytes that stay as they are: ASCII letters, digits and `- . _ ~`.
pub open spec fn is_unreserved(c: u8) -> bool {
    (48 <= c <= 57) || (65 <= c <= 90) || (97 <= c <= 122) || c == 45 || c == 46 || c == 95
        || c == 126
}

/// The upper-case hexadecimal digit of a value below 16.
pub open spec fn upper_hex_digit(d: u8) -> u8 {
    if d < 10 {
        (48 + d) as u8
    } else {
        (55 + d) as u8
    }
}

/// The value of a hexadecimal digit of either case.
pub open spec fn hex_value(c: u8) -> Option<u8> {
    if 48 <= c <= 57 {
        Some((c - 48) as u8)
    } else if 65 <= c <= 70 {
        Some((c - 55) as u8)
    } else if 97 <= c <= 102 {
        Some((c - 87) as u8)
    } else {
        None
    }
}

pub open spec fn percent_encode_byte(c: u8) -> Seq<u8> {
    if is_unreserved(c) {
        seq![c]
    } else {
        seq![PERCENT, upper_hex_digit(c / 16), upper_hex_digit(c % 16)]
    }
}

/// Every byte but the unreserved ones becomes `%XX`.
pub open spec fn percent_encode(b: Seq<u8>) -> Seq<u8>
    decreases b.len(),
{
    if b.len() == 0 {
        seq![]
    } else {
        percent_encode_byte(b[0]) + percent_encode(b.drop_first())
    }
}

/// `%` followed by two hexadecimal digits becomes that byte; every other byte,
/// a lone `%` included, stays as it is.
pub open spec fn percent_decode(b: Seq<u8>) -> Seq<u8>
    decreases b.len(),
{
    if b.len() == 0 {
        seq![]
    } else if b[0] == PERCENT && b.len() >= 3 && hex_value(b[1]) is Some && hex_value(b[2]) is Some {
        seq![(hex_value(b[1])->0 * 16 + hex_value(b[2])->0) as u8] + percent_decode(b.skip(3))
    } else {
        seq![b[0]] + percent_decode(b.drop_first())
    }
}

/// Decoding undoes encoding.
pub proof fn lemma_percent_round_trip(b: Seq<u8>)
    ensures
        percent_decode(percent_encode(b)) == b,
    decreases b.len(),
{
    if b.len() > 0 {
        let c = b[0];
        let e = percent_encode(b);
        let rest = percent_encode(b.drop_first());
        lemma_percent_round_trip(b.drop_first());
        if is_unreserved(c) {
            assert(e.drop_first() =~= rest);
        } else {
            assert(e.skip(3) =~= rest);
            assert(hex_value(upper_hex_digit(c / 16)) == Some(c / 16));
            assert(hex_value(upper_hex_digit(c % 16)) == Some(c % 16));
            assert((c / 16) * 16 + c % 16 == c);
        }
        assert(b =~= seq![c] + b.drop_first());
    }
}

/// Relies on `urlencoding::encode_binary`: the UTF-8 bytes of the result are
/// the percent-encoding of `data`.
#[verifier::external_body]
pub(crate) fn url_encode_bytes(data: &[u8]) -> (r: String)
    ensures
        vstd::utf8::encode_utf8(r@) == percent_encode(data@),
{
    urlencoding::encode_binary(data).into_owned()
}

/// Relies on `urlencoding::decode_binary`: the percent-decoding of `data`.
#[verifier::external_body]
pub(crate) fn url_decode_bytes(data: &[u8]) -> (r: Vec<u8>)
    ensures
        r@ == percent_decode(data@),
{
    urlencoding::decode_binary(data).into_owned()
}

} // verus!
