//! Hexadecimal encoding of key material: the exact meaning of the hex
//! strings that carry 32-byte keys in configuration files, CLI arguments and
//! environment variables, and the round-trip law between encoding and
//! decoding.

use vstd::prelude::*;

verus! {

/// The lowercase hex digit for a nibble value below 16.
pub open spec fn hex_digit_char(d: u8) -> char {
    if d == 0 {
        '0'
    } else if d == 1 {
        '1'
    } else if d == 2 {
        '2'
    } else if d == 3 {
        '3'
    } else if d == 4 {
        '4'
    } else if d == 5 {
        '5'
    } else if d == 6 {
        '6'
    } else if d == 7 {
        '7'
    } else if d == 8 {
        '8'
    } else if d == 9 {
        '9'
    } else if d == 10 {
        'a'
    } else if d == 11 {
        'b'
    } else if d == 12 {
        'c'
    } else if d == 13 {
        'd'
    } else if d == 14 {
        'e'
    } else {
        'f'
    }
}

/// The nibble value of one ASCII hex digit, upper or lower case, if it is
/// one.
pub open spec fn hex_byte_val(b: u8) -> Option<u8> {
    if 48 <= b && b <= 57 {
        Some((b - 48) as u8)
    } else if 97 <= b && b <= 102 {
        Some((b - 87) as u8)
    } else if 65 <= b && b <= 70 {
        Some((b - 55) as u8)
    } else {
        None
    }
}

/// The lowercase hex rendering of a byte sequence: two digits per byte, high
/// nibble first.
pub open spec fn hex_chars_of(bytes: Seq<u8>) -> Seq<char>
    decreases bytes.len(),
{
    if bytes.len() == 0 {
        Seq::empty()
    } else {
        seq![hex_digit_char(bytes[0] / 16), hex_digit_char(bytes[0] % 16)] + hex_chars_of(
            bytes.drop_first(),
        )
    }
}

/// The bytes a sequence of ASCII digits encodes: `None` on odd length or on
/// any byte that is not a hex digit; digits of either case are accepted.
pub open spec fn hex_bytes_decode(digits: Seq<u8>) -> Option<Seq<u8>>
    decreases digits.len(),
{
    if digits.len() % 2 != 0 {
        None
    } else if digits.len() == 0 {
        Some(Seq::empty())
    } else {
        match (hex_byte_val(digits[0]), hex_byte_val(digits[1])) {
            (Some(hi), Some(lo)) => match hex_bytes_decode(digits.skip(2)) {
                Some(rest) => Some(seq![(16 * hi + lo) as u8] + rest),
                None => None,
            },
            _ => None,
        }
    }
}

/// Every digit character the encoder emits is ASCII, and its byte value
/// decodes back to the nibble it came from.
proof fn lemma_hex_digit_char_val(d: u8)
    requires
        d < 16,
    ensures
        '\0' <= hex_digit_char(d) <= '\u{7f}',
        hex_byte_val(hex_digit_char(d) as u8) == Some(d),
{
}

/// Encoding then decoding gives the bytes back: the hex rendering is ASCII,
/// twice as long as the input, and decodes to exactly the input.
pub proof fn lemma_hex_round_trip(bytes: Seq<u8>)
    ensures
        vstd::utf8::is_ascii_chars(hex_chars_of(bytes)),
        hex_chars_of(bytes).len() == 2 * bytes.len(),
        hex_bytes_decode(hex_chars_of(bytes).map_values(|c: char| c as u8)) == Some(bytes),
    decreases bytes.len(),
{
    let chars = hex_chars_of(bytes);
    let digits = chars.map_values(|c: char| c as u8);
    if bytes.len() == 0 {
        assert(digits =~= Seq::<u8>::empty());
        assert(hex_bytes_decode(digits) == Some(Seq::<u8>::empty()));
        assert(Seq::<u8>::empty() =~= bytes);
    } else {
        let b0 = bytes[0];
        let rest = bytes.drop_first();
        lemma_hex_round_trip(rest);
        lemma_hex_digit_char_val(b0 / 16);
        lemma_hex_digit_char_val(b0 % 16);
        let rest_chars = hex_chars_of(rest);
        assert(chars =~= seq![hex_digit_char(b0 / 16), hex_digit_char(b0 % 16)] + rest_chars);
        let rest_digits = rest_chars.map_values(|c: char| c as u8);
        assert(digits =~= seq![hex_digit_char(b0 / 16) as u8, hex_digit_char(b0 % 16) as u8]
            + rest_digits);
        assert(digits.skip(2) =~= rest_digits);
        assert(hex_byte_val(digits[0]) == Some((b0 / 16) as u8));
        assert(hex_byte_val(digits[1]) == Some((b0 % 16) as u8));
        assert(16 * (b0 / 16) + (b0 % 16) == b0) by {
            assert(b0 == 16 * (b0 / 16) + b0 % 16) by (nonlinear_arith);
        }
        assert(hex_bytes_decode(digits) == Some(seq![b0] + rest));
        assert(seq![b0] + rest =~= bytes);
        assert(vstd::utf8::is_ascii_chars(chars));
    }
}

/// Renders bytes as lowercase hex.
///
/// Relies on `hex::encode`: two lowercase digits per byte, high nibble
/// first.
#[verifier::external_body]
pub fn hex_encode(bytes: &[u8]) -> (r: String)
    ensures
        r@ == hex_chars_of(bytes@),
{
    hex::encode(bytes)
}

/// Decodes a hex digit string given as its ASCII bytes.
///
/// Relies on `hex::decode`: accepts digits of either case, two per output
/// byte; fails exactly on odd length or on any non-digit byte.
#[verifier::external_body]
pub fn hex_decode(digits: &[u8]) -> (r: Option<Vec<u8>>)
    ensures
        r is Some <==> hex_bytes_decode(digits@) is Some,
        r is Some ==> r->Some_0@ == hex_bytes_decode(digits@)->Some_0,
{
    hex::decode(digits).ok()
}

} // verus!
