//! Bytes as pairs of hexadecimal digits, read and written by the `hex` crate.

use vstd::prelude::*;

verus! {

/// `c` is a hexadecimal digit, in either case.
pub open spec fn is_hex_digit(c: char) -> bool {
    ('0' <= c && c <= '9') || ('a' <= c && c <= 'f') || ('A' <= c && c <= 'F')
}

/// The number that the hexadecimal digit `c` stands for.
pub open spec fn hex_value(c: char) -> int {
    if '0' <= c && c <= '9' {
        c as int - '0' as int
    } else if 'a' <= c && c <= 'f' {
        c as int - 'a' as int + 10
    } else {
        c as int - 'A' as int + 10
    }
}

/// The lower-case hexadecimal digit for a number below 16.
pub open spec fn hex_digit(n: int) -> char {
    if n < 10 {
        ('0' as int + n) as char
    } else {
        ('a' as int + n - 10) as char
    }
}

/// `s` spells `n` bytes: two hexadecimal digits for each, and nothing else.
pub open spec fn spells_bytes(s: Seq<char>, n: nat) -> bool {
    s.len() == 2 * n && forall|i: int| 0 <= i < s.len() ==> is_hex_digit(#[trigger] s[i])
}

/// The bytes that the digit pairs of `s` spell, the high digit first.
pub open spec fn bytes_of_hex(s: Seq<char>) -> Seq<u8> {
    Seq::new(s.len() / 2, |i: int| (hex_value(s[2 * i]) * 16 + hex_value(s[2 * i + 1])) as u8)
}

/// The digit pairs that spell `bytes`, in lower case and the high digit first.
pub open spec fn hex_of_bytes(bytes: Seq<u8>) -> Seq<char> {
    Seq::new(
        2 * bytes.len(),
        |i: int|
            if i % 2 == 0 {
                hex_digit(bytes[i / 2] as int / 16)
            } else {
                hex_digit(bytes[i / 2] as int % 16)
            },
    )
}

#[verifier::external_type_specification]
#[verifier::external_body]
pub struct ExFromHexError(hex::FromHexError);

/// Calls `hex::decode_to_slice` on a buffer of `N` bytes. It succeeds where `s` is
/// `2 * N` hexadecimal digits, of either case, and then fills the buffer with the
/// bytes that the pairs spell; any other string it refuses.
#[verifier::external_body]
pub(crate) fn decode_hex<const N: usize>(s: &str) -> (decoded: Result<[u8; N], hex::FromHexError>)
    ensures
        decoded is Ok <==> spells_bytes(s@, N as nat),
        decoded matches Ok(bytes) ==> bytes@ == bytes_of_hex(s@),
{
    let mut bytes = [0u8; N];
    hex::decode_to_slice(s, &mut bytes)?;
    Ok(bytes)
}

/// Calls `hex::encode`, which writes each byte as two lower-case hexadecimal
/// digits, the high one first.
#[verifier::external_body]
pub(crate) fn encode_hex(bytes: &[u8]) -> (text: String)
    ensures
        text@ == hex_of_bytes(bytes@),
{
    hex::encode(bytes)
}

/// Reading what was written gives the bytes again.
pub proof fn law_hex_round_trip(bytes: Seq<u8>)
    ensures
        spells_bytes(hex_of_bytes(bytes), bytes.len()),
        bytes_of_hex(hex_of_bytes(bytes)) == bytes,
{
    let text = hex_of_bytes(bytes);
    assert forall|i: int| 0 <= i < text.len() implies is_hex_digit(#[trigger] text[i]) by {
        let b = bytes[i / 2] as int;
        assert(0 <= b / 16 < 16 && 0 <= b % 16 < 16);
    }
    assert forall|i: int| 0 <= i < bytes.len() implies bytes_of_hex(text)[i] == bytes[i] by {
        let b = bytes[i] as int;
        assert((2 * i) / 2 == i && (2 * i) % 2 == 0);
        assert((2 * i + 1) / 2 == i && (2 * i + 1) % 2 == 1);
        assert(0 <= b / 16 < 16 && 0 <= b % 16 < 16);
        assert(text[2 * i] == hex_digit(b / 16));
        assert(text[2 * i + 1] == hex_digit(b % 16));
        assert(hex_value(hex_digit(b / 16)) == b / 16);
        assert(hex_value(hex_digit(b % 16)) == b % 16);
        assert(b / 16 * 16 + b % 16 == b);
    }
    assert(bytes_of_hex(text) =~= bytes);
}

} // verus!
