//! The encoder: bytes to base64 text. It never fails.

use vstd::prelude::*;
use vstd::utf8::encode_utf8;

use crate::alphabet::{get_table_char, lemma_symbol_of_sextet, symbol_of, PAD_CHAR};
use crate::text::{ascii_text, is_ascii_bytes, lemma_ascii_bytes_are_text, string_from_utf8_lossy};

verus! {

/// The byte at position `i`, or zero past the end: the input is read as if
/// zero bytes followed it.
pub open spec fn byte_or_zero(bytes: Seq<u8>, i: int) -> u8 {
    if 0 <= i < bytes.len() {
        bytes[i]
    } else {
        0
    }
}

/// Sextet `k` (0 to 3) of the 24 bits that the three bytes of a group hold.
pub open spec fn group_sextet(b0: u8, b1: u8, b2: u8, k: int) -> u8 {
    if k == 0 {
        b0 >> 2
    } else if k == 1 {
        ((b0 << 4) | (b1 >> 4)) & 0x3f
    } else if k == 2 {
        ((b1 << 2) | (b2 >> 6)) & 0x3f
    } else {
        b2 & 0x3f
    }
}

/// Sextet `j` of the bit stream of `bytes`: group `j / 4` covers the bytes
/// `3 * (j / 4)` and the two after it.
pub open spec fn sextet_at(bytes: Seq<u8>, j: int) -> u8 {
    let first = 3 * (j / 4);
    group_sextet(
        byte_or_zero(bytes, first),
        byte_or_zero(bytes, first + 1),
        byte_or_zero(bytes, first + 2),
        j % 4,
    )
}

/// Length of the encoding of `n` bytes: four characters for every group of
/// three bytes, the last group counted whole even if it is not.
pub open spec fn encoded_len(n: nat) -> nat {
    4 * ((n + 2) / 3)
}

/// Does position `j` of the encoding of `n` bytes hold padding? It does when
/// none of the six bits of sextet `j` comes from the input.
pub open spec fn is_pad_position(n: nat, j: int) -> bool {
    6 * j >= 8 * n
}

/// The character at position `j` of the encoding of `bytes`.
pub open spec fn encoded_char(bytes: Seq<u8>, j: int) -> u8 {
    if is_pad_position(bytes.len(), j) {
        PAD_CHAR
    } else {
        symbol_of(sextet_at(bytes, j))
    }
}

/// The base64 encoding of `bytes`.
pub open spec fn encoded(bytes: Seq<u8>) -> Seq<u8> {
    Seq::new(encoded_len(bytes.len()), |j: int| encoded_char(bytes, j))
}

/// Splits the 24 bits of three bytes into four sextets.
fn split_group(b0: u8, b1: u8, b2: u8) -> (s: (u8, u8, u8, u8))
    ensures
        s.0 == group_sextet(b0, b1, b2, 0) && s.0 < 64,
        s.1 == group_sextet(b0, b1, b2, 1) && s.1 < 64,
        s.2 == group_sextet(b0, b1, b2, 2) && s.2 < 64,
        s.3 == group_sextet(b0, b1, b2, 3) && s.3 < 64,
{
    assert(b0 >> 2 < 64) by (bit_vector);
    assert(((b0 << 4) | (b1 >> 4)) & 0x3f < 64) by (bit_vector);
    assert(((b1 << 2) | (b2 >> 6)) & 0x3f < 64) by (bit_vector);
    assert(b2 & 0x3f < 64) by (bit_vector);
    (b0 >> 2, ((b0 << 4) | (b1 >> 4)) & 0x3f, ((b1 << 2) | (b2 >> 6)) & 0x3f, b2 & 0x3f)
}

/// Encode input bytes into base64 bytes.
pub fn encode_bytes(input_bytes: &[u8]) -> (output_bytes: Vec<u8>)
    ensures
        output_bytes@ == encoded(input_bytes@),
        output_bytes@.len() == 4 * ((input_bytes@.len() + 2) / 3),
{
    let n = input_bytes.len();
    let mut output_bytes: Vec<u8> = Vec::new();
    let mut i: usize = 0;
    while n - i >= 3
        invariant
            n == input_bytes@.len(),
            i <= n,
            i % 3 == 0,
            output_bytes@.len() == 4 * (i / 3),
            forall|j: int|
                0 <= j < output_bytes@.len() ==> output_bytes@[j] == encoded_char(
                    input_bytes@,
                    j,
                ),
        decreases n - i,
    {
        let s = split_group(input_bytes[i], input_bytes[i + 1], input_bytes[i + 2]);
        output_bytes.push(get_table_char(s.0));
        output_bytes.push(get_table_char(s.1));
        output_bytes.push(get_table_char(s.2));
        output_bytes.push(get_table_char(s.3));
        i += 3;
    }
    if n - i == 1 {
        let s = split_group(input_bytes[i], 0, 0);
        output_bytes.push(get_table_char(s.0));
        output_bytes.push(get_table_char(s.1));
        output_bytes.push(PAD_CHAR);
        output_bytes.push(PAD_CHAR);
    } else if n - i == 2 {
        let s = split_group(input_bytes[i], input_bytes[i + 1], 0);
        output_bytes.push(get_table_char(s.0));
        output_bytes.push(get_table_char(s.1));
        output_bytes.push(get_table_char(s.2));
        output_bytes.push(PAD_CHAR);
    }
    output_bytes
}

/// The sextets of any input are below 64.
pub proof fn lemma_sextet_at_bound(bytes: Seq<u8>, j: int)
    ensures
        sextet_at(bytes, j) < 64,
{
    let first = 3 * (j / 4);
    let b0 = byte_or_zero(bytes, first);
    let b1 = byte_or_zero(bytes, first + 1);
    let b2 = byte_or_zero(bytes, first + 2);
    assert(b0 >> 2 < 64) by (bit_vector);
    assert(((b0 << 4) | (b1 >> 4)) & 0x3f < 64) by (bit_vector);
    assert(((b1 << 2) | (b2 >> 6)) & 0x3f < 64) by (bit_vector);
    assert(b2 & 0x3f < 64) by (bit_vector);
}

/// An encoding holds ASCII characters only.
pub proof fn lemma_encoded_is_ascii(bytes: Seq<u8>)
    ensures
        is_ascii_bytes(encoded(bytes)),
{
    assert forall|j: int| 0 <= j < encoded(bytes).len() implies encoded(bytes)[j] < 128 by {
        lemma_sextet_at_bound(bytes, j);
        lemma_symbol_of_sextet(sextet_at(bytes, j));
    }
}

/// Encode input string into base64 string.
pub fn encode_string(input_string: &str) -> (output_string: String)
    ensures
        output_string@ == ascii_text(encoded(encode_utf8(input_string@))),
        output_string@.len() == 4 * ((encode_utf8(input_string@).len() + 2) / 3),
{
    let input_bytes = input_string.as_bytes();
    let output_bytes = encode_bytes(input_bytes);
    proof {
        lemma_encoded_is_ascii(input_bytes@);
        lemma_ascii_bytes_are_text(output_bytes@);
    }
    string_from_utf8_lossy(output_bytes.as_slice())
}

} // verus!
