//! Byte/text encodings the wire formats use: lowercase hex and base64 (the
//! standard alphabet with padding, and the URL-safe alphabet without padding).
//!
//! Hex is fully specified here; base64 is called through trusted wrappers
//! whose results are named, together with the documented round-trip fact.

use vstd::prelude::*;
use crate::errors::Error;

verus! {

/// The lowercase hex digit for a nibble.
pub open spec fn hex_digit_char(n: u8) -> char
    recommends
        n < 16,
{
    if n < 10 {
        ((n + 48) as u8) as char
    } else {
        ((n + 87) as u8) as char
    }
}

/// Lowercase hex text of a byte sequence: two digits per byte, high nibble first.
pub open spec fn hex_of(b: Seq<u8>) -> Seq<char> {
    Seq::new(b.len() * 2, |i: int|
        if i % 2 == 0 {
            hex_digit_char((b[i / 2] / 16) as u8)
        } else {
            hex_digit_char((b[i / 2] % 16) as u8)
        }
    )
}

/// The value of one hex digit, upper or lower case; 255 for a non-digit.
pub open spec fn hex_char_val(c: char) -> u8 {
    let v = c as u32;
    if 48 <= v && v <= 57 {
        (v - 48) as u8
    } else if 97 <= v && v <= 102 {
        (v - 87) as u8
    } else if 65 <= v && v <= 70 {
        (v - 55) as u8
    } else {
        255
    }
}

/// What decoding hex text yields: the byte sequence, or nothing when the
/// length is odd or a character is not a hex digit.
pub open spec fn hex_decode_spec(s: Seq<char>) -> Option<Seq<u8>> {
    if s.len() % 2 == 0 && (forall|i: int| 0 <= i < s.len() ==> hex_char_val(s[i]) != 255) {
        Some(Seq::new(s.len() / 2, |i: int|
            (hex_char_val(s[2 * i]) * 16 + hex_char_val(s[2 * i + 1])) as u8))
    } else {
        None
    }
}

/// Decoding inverts encoding: hex text of any byte sequence decodes back to it.
pub proof fn lemma_hex_round_trip(b: Seq<u8>)
    ensures
        hex_decode_spec(hex_of(b)) == Some(b),
{
    let s = hex_of(b);
    assert forall|i: int| 0 <= i < s.len() implies hex_char_val(s[i]) != 255 by {
        if i % 2 == 0 {
            assert(s[i] == hex_digit_char((b[i / 2] / 16) as u8));
        } else {
            assert(s[i] == hex_digit_char((b[i / 2] % 16) as u8));
        }
    }
    let d = hex_decode_spec(s).unwrap();
    assert forall|i: int| 0 <= i < d.len() implies d[i] == b[i] by {
        assert(s[2 * i] == hex_digit_char((b[i] / 16) as u8));
        assert(s[2 * i + 1] == hex_digit_char((b[i] % 16) as u8));
        assert(hex_char_val(hex_digit_char((b[i] / 16) as u8)) == b[i] / 16);
        assert(hex_char_val(hex_digit_char((b[i] % 16) as u8)) == b[i] % 16);
    }
    assert(d =~= b);
    assert(hex_decode_spec(hex_of(b)) =~= Some(b));
}

/// Relies on hex::encode: lowercase hex text, two digits per byte.
#[verifier::external_body]
pub(crate) fn hex_encode(b: &[u8]) -> (r: String)
    ensures
        r@ == hex_of(b@),
{
    hex::encode(b)
}

/// Relies on hex::decode: accepts upper and lower case digits, rejects an odd
/// length or a non-digit.
#[verifier::external_body]
pub(crate) fn hex_decode(s: &str) -> (r: Result<Vec<u8>, Error>)
    ensures
        r is Ok <==> hex_decode_spec(s@) is Some,
        r is Ok ==> r.unwrap()@ == hex_decode_spec(s@).unwrap(),
        r is Err ==> r.unwrap_err() is HexDecodeError,
{
    hex::decode(s).map_err(|_e| Error::HexDecodeError)
}

/// The base64 text of a byte sequence. `url_nopad` selects the URL-safe
/// alphabet without padding; otherwise the standard alphabet with padding.
pub uninterp spec fn b64_of(url_nopad: bool, b: Seq<u8>) -> Seq<char>;

/// What decoding base64 text yields, or nothing when the text is not valid
/// base64 under the selected alphabet.
pub uninterp spec fn b64_decode_of(url_nopad: bool, s: Seq<char>) -> Option<Seq<u8>>;

/// Relies on base64::encode_config with the STANDARD config, and on the
/// documented fact that decode_config inverts it.
#[verifier::external_body]
pub(crate) fn b64_encode(b: &[u8]) -> (r: String)
    ensures
        r@ == b64_of(false, b@),
        b64_decode_of(false, r@) == Some(b@),
{
    base64::encode_config(b, base64::STANDARD)
}

/// Relies on base64::encode_config with the URL_SAFE_NO_PAD config, and on
/// the documented fact that decode_config inverts it.
#[verifier::external_body]
pub(crate) fn b64url_encode_nopad(b: &[u8]) -> (r: String)
    ensures
        r@ == b64_of(true, b@),
        b64_decode_of(true, r@) == Some(b@),
{
    base64::encode_config(b, base64::URL_SAFE_NO_PAD)
}

/// Relies on base64::decode_config with the STANDARD config.
#[verifier::external_body]
pub(crate) fn b64_decode(s: &str) -> (r: Result<Vec<u8>, Error>)
    ensures
        r is Ok <==> b64_decode_of(false, s@) is Some,
        r is Ok ==> r.unwrap()@ == b64_decode_of(false, s@).unwrap(),
        r is Err ==> r.unwrap_err() is Base64DecodeError,
{
    base64::decode_config(s, base64::STANDARD).map_err(|_e| Error::Base64DecodeError)
}

/// Relies on base64::decode_config with the URL_SAFE_NO_PAD config.
#[verifier::external_body]
pub(crate) fn b64url_decode_nopad(s: &str) -> (r: Result<Vec<u8>, Error>)
    ensures
        r is Ok <==> b64_decode_of(true, s@) is Some,
        r is Ok ==> r.unwrap()@ == b64_decode_of(true, s@).unwrap(),
        r is Err ==> r.unwrap_err() is Base64DecodeError,
{
    base64::decode_config(s, base64::URL_SAFE_NO_PAD).map_err(|_e| Error::Base64DecodeError)
}

} // verus!
