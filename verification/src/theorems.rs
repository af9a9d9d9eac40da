//! What the encoder and the decoder owe each other.

use vstd::prelude::*;
use vstd::utf8::{decode_utf8, encode_utf8, encode_utf8_decode_utf8, encode_utf8_valid_utf8, valid_utf8};

use crate::alphabet::{is_symbol, lemma_symbol_of_sextet, symbol_of, PAD_CHAR};
use crate::decode::{
    core_len, core_of, decoded, decoded_byte, decoded_len, first_unmapped, has_inner_padding,
    lemma_core_len, lemma_first_unmapped, padding_owed, sextet_value,
};
use crate::encode::{
    byte_or_zero, encoded, encoded_len, group_sextet, is_pad_position, lemma_encoded_is_ascii,
    lemma_sextet_at_bound, sextet_at,
};
use crate::text::{ascii_text, lemma_ascii_bytes_are_text};

verus! {

/// Number of characters of the encoding of `n` bytes that are symbols: the
/// rest, at the end, is padding.
pub open spec fn encoded_core_len(n: nat) -> nat {
    let rest: nat = if n % 3 == 0 {
        0
    } else {
        (n % 3 + 1) as nat
    };
    4 * (n / 3) + rest
}

/// Putting the four sextets of a group together again gives its three bytes.
proof fn lemma_group_bits(b0: u8, b1: u8, b2: u8)
    ensures
        ((b0 >> 2) << 2) | ((((b0 << 4) | (b1 >> 4)) & 0x3f) >> 4) == b0,
        ((((b0 << 4) | (b1 >> 4)) & 0x3f) << 4) | ((((b1 << 2) | (b2 >> 6)) & 0x3f) >> 2) == b1,
        ((((b1 << 2) | (b2 >> 6)) & 0x3f) << 6) | (b2 & 0x3f) == b2,
{
    assert(((b0 >> 2) << 2) | ((((b0 << 4) | (b1 >> 4)) & 0x3f) >> 4) == b0) by (bit_vector);
    assert(((((b0 << 4) | (b1 >> 4)) & 0x3f) << 4) | ((((b1 << 2) | (b2 >> 6)) & 0x3f) >> 2)
        == b1) by (bit_vector);
    assert(((((b1 << 2) | (b2 >> 6)) & 0x3f) << 6) | (b2 & 0x3f) == b2) by (bit_vector);
}

/// The encoding of `bytes` is a run of symbols, one for each sextet that
/// holds input bits, and then padding up to a multiple of four.
pub proof fn lemma_encoded_shape(bytes: Seq<u8>)
    ensures
        encoded(bytes).len() == encoded_len(bytes.len()),
        encoded_core_len(bytes.len()) <= encoded_len(bytes.len()),
        forall|j: int|
            0 <= j < encoded_core_len(bytes.len()) ==> #[trigger] encoded(bytes)[j] == symbol_of(
                sextet_at(bytes, j),
            ) && is_symbol(encoded(bytes)[j]),
        forall|j: int|
            encoded_core_len(bytes.len()) <= j < encoded_len(bytes.len())
                ==> #[trigger] encoded(bytes)[j] == PAD_CHAR,
        core_len(encoded(bytes)) == encoded_core_len(bytes.len()),
{
    let n = bytes.len();
    let text = encoded(bytes);
    let c = encoded_core_len(n);
    assert forall|j: int| 0 <= j < c implies #[trigger] text[j] == symbol_of(sextet_at(bytes, j))
        && is_symbol(text[j]) by {
        assert(!is_pad_position(n, j));
        lemma_sextet_at_bound(bytes, j);
        lemma_symbol_of_sextet(sextet_at(bytes, j));
    }
    assert forall|j: int| c <= j < encoded_len(n) implies #[trigger] text[j] == PAD_CHAR by {
        assert(is_pad_position(n, j));
    }
    if c > 0 {
        assert(is_symbol(text[c - 1]));
    }
    lemma_core_len(text, c as int);
}

/// Round trip: decoding the encoding of any bytes gives the bytes back.
pub proof fn lemma_round_trip(bytes: Seq<u8>)
    ensures
        decoded(encoded(bytes)) == Ok::<Seq<u8>, crate::decode::DecodeError>(bytes),
{
    let n = bytes.len();
    let text = encoded(bytes);
    let c = encoded_core_len(n);
    lemma_encoded_shape(bytes);
    let core = core_of(text);
    assert(core.len() == c);
    assert forall|j: int| 0 <= j < c implies is_symbol(#[trigger] core[j]) && sextet_value(
        core,
        j,
    ) == sextet_at(bytes, j) by {
        assert(core[j] == text[j]);
        lemma_sextet_at_bound(bytes, j);
        lemma_symbol_of_sextet(sextet_at(bytes, j));
    }
    assert(!has_inner_padding(core));
    lemma_first_unmapped(core, c as int);
    assert(text.len() - core.len() >= padding_owed(core.len() as int % 4));
    assert(decoded_len(c) == n);
    let out = Seq::new(decoded_len(c), |i: int| decoded_byte(core, i));
    assert forall|i: int| 0 <= i < n implies out[i] == bytes[i] by {
        let g = i / 3;
        let j = 4 * g + i % 3;
        assert(j + 1 < c);
        assert(j / 4 == g && (j + 1) / 4 == g);
        let b0 = byte_or_zero(bytes, 3 * g);
        let b1 = byte_or_zero(bytes, 3 * g + 1);
        let b2 = byte_or_zero(bytes, 3 * g + 2);
        lemma_group_bits(b0, b1, b2);
        assert(sextet_value(core, j) == group_sextet(b0, b1, b2, i % 3));
        assert(sextet_value(core, j + 1) == group_sextet(b0, b1, b2, i % 3 + 1));
    }
    assert(out =~= bytes);
}

/// Round trip of texts: the encoding of a text, read as bytes again, decodes
/// to the bytes of the text, which are well-formed and give the text back.
pub proof fn lemma_text_round_trip(input: Seq<char>)
    ensures
        decoded(encode_utf8(ascii_text(encoded(encode_utf8(input))))) == Ok::<
            Seq<u8>,
            crate::decode::DecodeError,
        >(encode_utf8(input)),
        valid_utf8(encode_utf8(input)),
        decode_utf8(encode_utf8(input)) == input,
{
    let bytes = encode_utf8(input);
    lemma_encoded_is_ascii(bytes);
    lemma_ascii_bytes_are_text(encoded(bytes));
    lemma_round_trip(bytes);
    encode_utf8_valid_utf8(input);
    encode_utf8_decode_utf8(input);
}

/// Length law: the encoding of `n` bytes has four characters for each
/// started group of three bytes, whatever the bytes are.
pub proof fn lemma_encoded_length(bytes: Seq<u8>)
    ensures
        encoded(bytes).len() == 4 * ((bytes.len() + 2) / 3),
        encoded(bytes).len() % 4 == 0,
        3 * encoded(bytes).len() >= 4 * bytes.len(),
        3 * encoded(bytes).len() < 4 * bytes.len() + 12,
{
}

/// One more padding character at the end leaves the core as it is.
pub proof fn lemma_padding_keeps_core(text: Seq<u8>)
    ensures
        core_of(text.push(PAD_CHAR)) == core_of(text),
{
    let longer = text.push(PAD_CHAR);
    assert(longer.drop_last() =~= text);
    assert(core_len(longer) == core_len(text));
    lemma_core_len_bound(text);
    assert(longer.take(core_len(text) as int) =~= text.take(core_len(text) as int));
}

/// The core is no longer than the text.
pub proof fn lemma_core_len_bound(text: Seq<u8>)
    ensures
        core_len(text) <= text.len(),
    decreases text.len(),
{
    if text.len() > 0 && text.last() == PAD_CHAR {
        lemma_core_len_bound(text.drop_last());
    }
}

/// Tolerance of surplus padding: a text that ends in as much padding as its
/// last group needs decodes to the same with any more padding behind it.
pub proof fn lemma_surplus_padding(text: Seq<u8>)
    requires
        text.len() - core_len(text) >= padding_owed(core_len(text) as int % 4),
    ensures
        decoded(text.push(PAD_CHAR)) == decoded(text),
{
    lemma_padding_keeps_core(text);
    lemma_core_len_bound(text);
}

} // verus!
