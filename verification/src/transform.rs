//! The reversible text transforms over packed bytes: upper-case hexadecimal
//! and standard base64, one record per line. The encodings themselves are
//! standard, already-solved transforms and are taken from their crates on
//! stated contracts; everything around them is verified.
use vstd::prelude::*;

use base64::engine::general_purpose::STANDARD;
use base64::Engine;

verus! {

/// A nibble as an upper-case hexadecimal digit.
pub open spec fn hex_digit(n: u8) -> char {
    if n < 10 {
        ((48 + n) as char)
    } else {
        ((55 + n) as char)
    }
}

/// Bytes as upper-case hexadecimal text: two digits per byte, most
/// significant nibble first.
pub open spec fn hex_upper_of(bytes: Seq<u8>) -> Seq<char>
    decreases bytes.len(),
{
    if bytes.len() == 0 {
        Seq::<char>::empty()
    } else {
        hex_upper_of(bytes.drop_last()) + seq![
            hex_digit(bytes.last() / 16),
            hex_digit(bytes.last() % 16),
        ]
    }
}

/// A hexadecimal digit in either case.
pub open spec fn is_hex_digit(c: char) -> bool {
    ('0' <= c && c <= '9') || ('a' <= c && c <= 'f') || ('A' <= c && c <= 'F')
}

/// The nibble a hexadecimal digit denotes.
pub open spec fn hex_val(c: char) -> u8 {
    if '0' <= c && c <= '9' {
        (((c as u8) - 48) as u8)
    } else if 'a' <= c && c <= 'f' {
        (((c as u8) - 87) as u8)
    } else {
        (((c as u8) - 55) as u8)
    }
}

/// Decodable hexadecimal text: digits only, an even number of them.
pub open spec fn is_hex_text(s: Seq<char>) -> bool {
    s.len() % 2 == 0 && (forall|i: int| 0 <= i < s.len() ==> is_hex_digit(s[i]))
}

/// The bytes hexadecimal text denotes, two digits each.
pub open spec fn hex_bytes_of(s: Seq<char>) -> Seq<u8> {
    Seq::new((s.len() / 2) as nat, |i: int| (hex_val(s[2 * i]) * 16 + hex_val(s[2 * i + 1])) as u8)
}

/// Hexadecimal rendering is lossless: the rendered text is decodable and
/// denotes the bytes it came from.
pub proof fn lemma_hex_roundtrip(bytes: Seq<u8>)
    ensures
        hex_upper_of(bytes).len() == 2 * bytes.len(),
        is_hex_text(hex_upper_of(bytes)),
        hex_bytes_of(hex_upper_of(bytes)) == bytes,
    decreases bytes.len(),
{
    if bytes.len() > 0 {
        let pre = bytes.drop_last();
        lemma_hex_roundtrip(pre);
        let s = hex_upper_of(bytes);
        let b = bytes.last();
        assert(s[s.len() - 2] == hex_digit(b / 16) && s[s.len() - 1] == hex_digit(b % 16));
        assert(hex_val(hex_digit(b / 16)) == b / 16 && hex_val(hex_digit(b % 16)) == b % 16);
        assert forall|i: int| 0 <= i < s.len() implies is_hex_digit(s[i]) by {
            if i < s.len() - 2 {
                assert(s[i] == hex_upper_of(pre)[i]);
            }
        }
        assert forall|i: int| 0 <= i < bytes.len() implies hex_bytes_of(s)[i] == bytes[i] by {
            if i < bytes.len() - 1 {
                assert(s[2 * i] == hex_upper_of(pre)[2 * i]);
                assert(s[2 * i + 1] == hex_upper_of(pre)[2 * i + 1]);
                assert(hex_bytes_of(hex_upper_of(pre))[i] == pre[i]);
            } else {
                assert(hex_val(s[2 * i]) * 16 + hex_val(s[2 * i + 1]) == b / 16 * 16 + b % 16);
            }
        }
        assert(hex_bytes_of(s) =~= bytes);
    } else {
        assert(hex_bytes_of(hex_upper_of(bytes)) =~= bytes);
    }
}

/// Relies on `hex::encode_upper`: each byte becomes two upper-case
/// hexadecimal digits, most significant nibble first.
#[verifier::external_body]
pub(crate) fn hex_encode_upper(bytes: &[u8]) -> (r: String)
    ensures
        r@ == hex_upper_of(bytes@),
{
    hex::encode_upper(bytes)
}

/// Relies on `hex::decode`: it accepts exactly even-length strings of
/// hexadecimal digits in either case, and returns the bytes the digit pairs
/// denote.
#[verifier::external_body]
pub(crate) fn hex_decode(s: &str) -> (r: Option<Vec<u8>>)
    ensures
        r is Some <==> is_hex_text(s@),
        match r {
            Some(v) => v@ == hex_bytes_of(s@),
            None => true,
        },
{
    match hex::decode(s) {
        Ok(v) => Some(v),
        Err(_) => None,
    }
}

/// The standard base64 text of a byte sequence, with canonical padding.
pub uninterp spec fn b64_of(bytes: Seq<u8>) -> Seq<char>;

/// Text that is the standard base64 encoding of some byte sequence.
pub open spec fn b64_valid(s: Seq<char>) -> bool {
    exists|b: Seq<u8>| s == b64_of(b)
}

/// The byte sequence valid base64 text encodes.
pub open spec fn b64_inv(s: Seq<char>) -> Seq<u8> {
    choose|b: Seq<u8>| s == b64_of(b)
}

/// Relies on base64's standard-alphabet engine with padding: the encoding
/// depends on the bytes alone, and uses four characters for every three
/// bytes, the last group padded.
#[verifier::external_body]
pub(crate) fn b64_encode(bytes: &[u8]) -> (r: String)
    ensures
        r@ == b64_of(bytes@),
        r@.len() == 4 * ((bytes@.len() + 2) / 3),
{
    STANDARD.encode(bytes)
}

/// Relies on base64's standard-alphabet decode, which requires canonical
/// padding and rejects set trailing bits: it accepts exactly the canonical
/// encodings, and inverts the encode of the same engine, so text accepted
/// with result `v` is the encoding of `v` and of nothing else.
#[verifier::external_body]
pub(crate) fn b64_decode(s: &str) -> (r: Option<Vec<u8>>)
    ensures
        r is Some <==> b64_valid(s@),
        match r {
            Some(v) => s@ == b64_of(v@) && v@ == b64_inv(s@),
            None => true,
        },
{
    match STANDARD.decode(s) {
        Ok(v) => Some(v),
        Err(_) => None,
    }
}

} // verus!
