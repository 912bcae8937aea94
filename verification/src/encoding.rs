//! Lower-case hexadecimal text for digests and keys.

use vstd::prelude::*;

verus! {

/// The lower-case hex digit for a value below 16.
pub open spec fn hex_digit(n: int) -> char {
    if n == 0 {
        '0'
    } else if n == 1 {
        '1'
    } else if n == 2 {
        '2'
    } else if n == 3 {
        '3'
    } else if n == 4 {
        '4'
    } else if n == 5 {
        '5'
    } else if n == 6 {
        '6'
    } else if n == 7 {
        '7'
    } else if n == 8 {
        '8'
    } else if n == 9 {
        '9'
    } else if n == 10 {
        'a'
    } else if n == 11 {
        'b'
    } else if n == 12 {
        'c'
    } else if n == 13 {
        'd'
    } else if n == 14 {
        'e'
    } else {
        'f'
    }
}

/// The value of a hex digit of either case, or `None` for any other character.
pub open spec fn hex_value(c: char) -> Option<int> {
    if '0' <= c <= '9' {
        Some(c as int - '0' as int)
    } else if 'a' <= c <= 'f' {
        Some(c as int - 'a' as int + 10)
    } else if 'A' <= c <= 'F' {
        Some(c as int - 'A' as int + 10)
    } else {
        None
    }
}

/// Two lower-case hex digits per byte, the high half first.
pub open spec fn hex_string(bytes: Seq<u8>) -> Seq<char> {
    Seq::new(
        2 * bytes.len(),
        |i: int|
            if i % 2 == 0 {
                hex_digit(bytes[i / 2] as int / 16)
            } else {
                hex_digit(bytes[i / 2] as int % 16)
            },
    )
}

/// Whether `text` is an even number of hex digits.
pub open spec fn is_hex(text: Seq<char>) -> bool {
    &&& text.len() % 2 == 0
    &&& forall|i: int| 0 <= i < text.len() ==> (#[trigger] hex_value(text[i])) is Some
}

/// The bytes that an even-length run of hex digits stands for.
pub open spec fn hex_bytes(text: Seq<char>) -> Seq<u8> {
    Seq::new(
        text.len() / 2,
        |j: int| (16 * hex_value(text[2 * j]).unwrap() + hex_value(text[2 * j + 1]).unwrap()) as u8,
    )
}

pub proof fn lemma_hex_string_len(bytes: Seq<u8>)
    ensures
        hex_string(bytes).len() == 2 * bytes.len(),
{
}

/// A hex digit names its value: distinct values below 16 have distinct digits.
pub proof fn lemma_hex_digit_value(n: int)
    requires
        0 <= n < 16,
    ensures
        hex_value(hex_digit(n)) == Some(n),
{
}

/// Hex text determines the bytes it was made from.
pub proof fn lemma_hex_string_injective(a: Seq<u8>, b: Seq<u8>)
    requires
        hex_string(a) == hex_string(b),
    ensures
        a == b,
{
    assert(hex_string(a).len() == 2 * a.len());
    assert(hex_string(b).len() == 2 * b.len());
    assert forall|j: int| 0 <= j < a.len() implies a[j] == b[j] by {
        let hi_a = a[j] as int / 16;
        let hi_b = b[j] as int / 16;
        let lo_a = a[j] as int % 16;
        let lo_b = b[j] as int % 16;
        assert(hex_string(a)[2 * j] == hex_digit(hi_a));
        assert(hex_string(b)[2 * j] == hex_digit(hi_b));
        assert(hex_string(a)[2 * j + 1] == hex_digit(lo_a));
        assert(hex_string(b)[2 * j + 1] == hex_digit(lo_b));
        lemma_hex_digit_value(hi_a);
        lemma_hex_digit_value(hi_b);
        lemma_hex_digit_value(lo_a);
        lemma_hex_digit_value(lo_b);
        assert(hi_a == hi_b);
        assert(lo_a == lo_b);
    }
    assert(a =~= b);
}

/// Decoding the text made from `bytes` gives `bytes` back.
pub proof fn lemma_hex_round_trip(bytes: Seq<u8>)
    ensures
        is_hex(hex_string(bytes)),
        hex_bytes(hex_string(bytes)) == bytes,
{
    let text = hex_string(bytes);
    assert forall|i: int| 0 <= i < text.len() implies (#[trigger] hex_value(text[i])) is Some by {
        lemma_hex_digit_value(bytes[i / 2] as int / 16);
        lemma_hex_digit_value(bytes[i / 2] as int % 16);
    }
    assert forall|j: int| 0 <= j < bytes.len() implies hex_bytes(text)[j] == bytes[j] by {
        lemma_hex_digit_value(bytes[j] as int / 16);
        lemma_hex_digit_value(bytes[j] as int % 16);
        assert(text[2 * j] == hex_digit(bytes[j] as int / 16));
        assert(text[2 * j + 1] == hex_digit(bytes[j] as int % 16));
    }
    assert(hex_bytes(text) =~= bytes);
}

/// `hex::FromHexError`, with which decoding fails.
#[verifier::external_type_specification]
#[verifier::external_body]
pub struct ExFromHexError(hex::FromHexError);

/// Calls `hex::encode`: two lower-case hex digits for each byte, in order.
#[verifier::external_body]
pub(crate) fn encode(bytes: &[u8]) -> (text: String)
    ensures
        text@ == hex_string(bytes@),
{
    hex::encode(bytes)
}

/// Calls `hex::decode`: succeeds exactly on an even number of hex digits of
/// either case, and then gives the byte that each pair stands for.
#[verifier::external_body]
pub(crate) fn decode(text: &str) -> (r: Result<Vec<u8>, hex::FromHexError>)
    ensures
        r is Ok <==> is_hex(text@),
        r matches Ok(bytes) ==> bytes@ == hex_bytes(text@),
{
    hex::decode(text)
}

/// The bytes that `text` spells in hex, or `None` where it is not an even
/// number of hex digits.
pub fn parse_hex(text: &str) -> (r: Option<Vec<u8>>)
    ensures
        r is Some <==> is_hex(text@),
        r matches Some(bytes) ==> bytes@ == hex_bytes(text@),
{
    match decode(text) {
        Ok(bytes) => Some(bytes),
        Err(_) => None,
    }
}

} // verus!
