//! The decoder: base64 text to bytes, or the reason why the text is none.

use vstd::prelude::*;

use vstd::utf8::{decode_utf8, encode_utf8, valid_utf8};

use crate::alphabet::{get_table_index, is_symbol, sextet_of, PAD_CHAR};
use crate::text::{string_from_utf8_lossy, utf8_lossy};

verus! {

/// Why a text is not the encoding of any byte sequence.
#[derive(Debug, Clone, Copy, PartialEq, Eq, Structural)]
pub enum DecodeError {
    /// The input length (after trimming padding) is invalid for decoding.
    /// This occurs when the length mod 4 is 1 (after trimming padding).
    InputLength,
    /// Padding character found in a non-final chunk, or incorrect amount of
    /// trailing padding characters for the final chunk.
    WrongPadding,
    /// An invalid base64 character was encountered (byte value returned).
    InvalidByte(u8),
}

/// Length of `text` without its trailing padding characters, however many.
pub open spec fn core_len(text: Seq<u8>) -> nat
    decreases text.len(),
{
    if text.len() > 0 && text.last() == PAD_CHAR {
        core_len(text.drop_last())
    } else {
        text.len()
    }
}

/// `text` without its trailing padding characters.
pub open spec fn core_of(text: Seq<u8>) -> Seq<u8> {
    text.take(core_len(text) as int)
}

/// Does a padding character stand inside one of the full groups of four?
pub open spec fn has_inner_padding(core: Seq<u8>) -> bool {
    exists|k: int| 0 <= k < 4 * (core.len() / 4) && #[trigger] core[k] == PAD_CHAR
}

/// How many padding characters must follow a core whose last group has `rem`
/// characters.
pub open spec fn padding_owed(rem: int) -> int {
    if rem == 2 {
        2
    } else if rem == 3 {
        1
    } else {
        0
    }
}

/// Position of the first character that is no symbol of the alphabet, or the
/// length of `core` if all are.
pub open spec fn first_unmapped(core: Seq<u8>) -> int
    decreases core.len(),
{
    if core.len() == 0 || !is_symbol(core[0]) {
        0
    } else {
        1 + first_unmapped(core.drop_first())
    }
}

/// Number of bytes that a core of `m` characters decodes to: three for each
/// full group, and one or two for a last group of two or three characters.
pub open spec fn decoded_len(m: nat) -> nat {
    let rest: nat = if m % 4 == 2 {
        1
    } else if m % 4 == 3 {
        2
    } else {
        0
    };
    3 * (m / 4) + rest
}

/// The sextet that the character at position `j` stands for.
pub open spec fn sextet_value(core: Seq<u8>, j: int) -> u8 {
    match sextet_of(core[j]) {
        Some(v) => v,
        None => 0,
    }
}

/// Byte `i` of the decoding: the eight bits that start at bit `8 * i` of the
/// stream of sextets. They lie in the sextets `i + i / 3` and the next.
pub open spec fn decoded_byte(core: Seq<u8>, i: int) -> u8 {
    let j = 4 * (i / 3) + i % 3;
    let high = sextet_value(core, j);
    let low = sextet_value(core, j + 1);
    if i % 3 == 0 {
        (high << 2) | (low >> 4)
    } else if i % 3 == 1 {
        (high << 4) | (low >> 2)
    } else {
        (high << 6) | low
    }
}

/// What `text` decodes to. The checks come in a fixed order, and the first
/// that fails decides the error: the length of the core, padding inside a
/// full group, the amount of trailing padding, then each character in turn.
pub open spec fn decoded(text: Seq<u8>) -> Result<Seq<u8>, DecodeError> {
    let core = core_of(text);
    let trailing = text.len() - core.len();
    if core.len() % 4 == 1 {
        Err(DecodeError::InputLength)
    } else if has_inner_padding(core) {
        Err(DecodeError::WrongPadding)
    } else if trailing < padding_owed(core.len() as int % 4) {
        Err(DecodeError::WrongPadding)
    } else if first_unmapped(core) < core.len() {
        Err(DecodeError::InvalidByte(core[first_unmapped(core)]))
    } else {
        Ok(Seq::new(decoded_len(core.len()), |i: int| decoded_byte(core, i)))
    }
}

/// The core of a text ends where its unbroken run of final padding begins.
pub proof fn lemma_core_len(text: Seq<u8>, end: int)
    requires
        0 <= end <= text.len(),
        forall|k: int| end <= k < text.len() ==> text[k] == PAD_CHAR,
        end == 0 || text[end - 1] != PAD_CHAR,
    ensures
        core_len(text) == end,
    decreases text.len(),
{
    if end < text.len() {
        lemma_core_len(text.drop_last(), end);
    }
}

/// The first unmapped position is the one before which every character is a
/// symbol and at which none stands.
pub proof fn lemma_first_unmapped(core: Seq<u8>, at: int)
    requires
        0 <= at <= core.len(),
        forall|k: int| 0 <= k < at ==> is_symbol(core[k]),
        at < core.len() ==> !is_symbol(core[at]),
    ensures
        first_unmapped(core) == at,
    decreases at,
{
    if at > 0 {
        lemma_first_unmapped(core.drop_first(), at - 1);
    }
}

/// Looks up the sextet of the character at position `at`, before which
/// every character is known to be a symbol.
fn read_sextet(input_bytes: &[u8], Ghost(core): Ghost<Seq<u8>>, at: usize) -> (r: Result<
    u8,
    DecodeError,
>)
    requires
        at < core.len() <= input_bytes@.len(),
        core == input_bytes@.take(core.len() as int),
        forall|k: int| 0 <= k < at ==> is_symbol(core[k]),
    ensures
        match r {
            Ok(v) => sextet_of(core[at as int]) == Some(v) && v == sextet_value(core, at as int),
            Err(e) => e == DecodeError::InvalidByte(core[at as int]) && first_unmapped(core) == at,
        },
{
    let c = input_bytes[at];
    match get_table_index(c) {
        Some(v) => Ok(v),
        None => {
            proof {
                lemma_first_unmapped(core, at as int);
            }
            Err(DecodeError::InvalidByte(c))
        },
    }
}

/// Decode input base64 bytes into the bytes that they stand for.
#[verifier::loop_isolation(false)]
pub fn decode_bytes(input_bytes: &[u8]) -> (result: Result<Vec<u8>, DecodeError>)
    ensures
        match decoded(input_bytes@) {
            Ok(bytes) => result matches Ok(v) && v@ == bytes,
            Err(e) => result == Err::<Vec<u8>, DecodeError>(e),
        },
        result matches Ok(v) ==> v@.len() == decoded_len(core_len(input_bytes@)),
{
    // Trim trailing padding characters first
    let n = input_bytes.len();
    let mut end = n;
    while end > 0 && input_bytes[end - 1] == PAD_CHAR
        invariant
            n == input_bytes@.len(),
            end <= n,
            forall|k: int| end <= k < n ==> input_bytes@[k] == PAD_CHAR,
        decreases end,
    {
        end -= 1;
    }
    let ghost core = input_bytes@.take(end as int);
    proof {
        lemma_core_len(input_bytes@, end as int);
    }
    let trailing_len = n - end;
    let remainder_len = end % 4;
    let chunks_end = end - remainder_len;

    // Only one base64 character left. Not enough to form a byte.
    if remainder_len == 1 {
        return Err(DecodeError::InputLength);
    }
    // Padding may only close the text
    let mut k: usize = 0;
    while k < chunks_end
        invariant
            k <= chunks_end <= end <= n,
            n == input_bytes@.len(),
            core == input_bytes@.take(end as int),
            chunks_end == 4 * (core.len() / 4),
            forall|j: int| 0 <= j < k ==> core[j] != PAD_CHAR,
        decreases chunks_end - k,
    {
        if input_bytes[k] == PAD_CHAR {
            assert(core[k as int] == PAD_CHAR);
            return Err(DecodeError::WrongPadding);
        }
        k += 1;
    }
    if (remainder_len == 2 && trailing_len < 2) || (remainder_len == 3 && trailing_len < 1) {
        return Err(DecodeError::WrongPadding);
    }
    // Repack each chunk of 4 characters into 3 bytes

    let mut output_bytes: Vec<u8> = Vec::new();
    let mut at: usize = 0;
    while at < chunks_end
        invariant
            at <= chunks_end <= end <= n,
            n == input_bytes@.len(),
            core == input_bytes@.take(end as int),
            chunks_end == 4 * (core.len() / 4),
            at % 4 == 0,
            forall|j: int| 0 <= j < at ==> is_symbol(core[j]),
            output_bytes@.len() == 3 * (at / 4),
            forall|i: int|
                0 <= i < output_bytes@.len() ==> output_bytes@[i] == decoded_byte(core, i),
        decreases chunks_end - at,
    {
        let idx0 = read_sextet(input_bytes, Ghost(core), at)?;
        let idx1 = read_sextet(input_bytes, Ghost(core), at + 1)?;
        let idx2 = read_sextet(input_bytes, Ghost(core), at + 2)?;
        let idx3 = read_sextet(input_bytes, Ghost(core), at + 3)?;
        output_bytes.push((idx0 << 2) | (idx1 >> 4));
        output_bytes.push((idx1 << 4) | (idx2 >> 2));
        output_bytes.push((idx2 << 6) | idx3);
        at += 4;
    }
    // Repack the remainder
    if remainder_len == 2 {
        let idx0 = read_sextet(input_bytes, Ghost(core), at)?;
        let idx1 = read_sextet(input_bytes, Ghost(core), at + 1)?;
        output_bytes.push((idx0 << 2) | (idx1 >> 4));
    } else if remainder_len == 3 {
        let idx0 = read_sextet(input_bytes, Ghost(core), at)?;
        let idx1 = read_sextet(input_bytes, Ghost(core), at + 1)?;
        let idx2 = read_sextet(input_bytes, Ghost(core), at + 2)?;
        output_bytes.push((idx0 << 2) | (idx1 >> 4));
        output_bytes.push((idx1 << 4) | (idx2 >> 2));
    }
    proof {
        lemma_first_unmapped(core, core.len() as int);
    }
    Ok(output_bytes)
}

/// Decode input base64 string into the string that it stands for.
/// This function tries to decode the input string as UTF-8 after decoding the base64 bytes.
/// Replacement characters will be used for invalid UTF-8 sequences.
pub fn decode_string(input_string: &str) -> (result: Result<String, DecodeError>)
    ensures
        match decoded(encode_utf8(input_string@)) {
            Ok(bytes) => {
                &&& result matches Ok(text)
                &&& text@ == utf8_lossy(bytes)
                &&& valid_utf8(bytes) ==> text@ == decode_utf8(bytes)
            },
            Err(e) => result == Err::<String, DecodeError>(e),
        },
{
    let input_bytes = input_string.as_bytes();
    match decode_bytes(input_bytes) {
        Ok(output_bytes) => Ok(string_from_utf8_lossy(output_bytes.as_slice())),
        Err(e) => Err(e),
    }
}

} // verus!
