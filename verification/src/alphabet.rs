//! The alphabet: a fixed one-to-one assignment of the 64 six-bit values
//! ("sextets") to printable ASCII characters, and the padding character, which
//! stands for no sextet.

use vstd::prelude::*;

verus! {

/// Number of symbols in the alphabet.
pub const N: u8 = 64;

/// The symbols in the order of their sextets: `A`-`Z`, `a`-`z`, `0`-`9`, `+`
/// and `/`.
pub const TABLE: [u8; 64] = [
    'A' as u8, 'B' as u8, 'C' as u8, 'D' as u8, 'E' as u8, 'F' as u8, 'G' as u8, 'H' as u8,
    'I' as u8, 'J' as u8, 'K' as u8, 'L' as u8, 'M' as u8, 'N' as u8, 'O' as u8, 'P' as u8,
    'Q' as u8, 'R' as u8, 'S' as u8, 'T' as u8, 'U' as u8, 'V' as u8, 'W' as u8, 'X' as u8,
    'Y' as u8, 'Z' as u8, 'a' as u8, 'b' as u8, 'c' as u8, 'd' as u8, 'e' as u8, 'f' as u8,
    'g' as u8, 'h' as u8, 'i' as u8, 'j' as u8, 'k' as u8, 'l' as u8, 'm' as u8, 'n' as u8,
    'o' as u8, 'p' as u8, 'q' as u8, 'r' as u8, 's' as u8, 't' as u8, 'u' as u8, 'v' as u8,
    'w' as u8, 'x' as u8, 'y' as u8, 'z' as u8, '0' as u8, '1' as u8, '2' as u8, '3' as u8,
    '4' as u8, '5' as u8, '6' as u8, '7' as u8, '8' as u8, '9' as u8, '+' as u8, '/' as u8,
];

/// The padding character `=`. It only ever closes an encoded text.
pub const PAD_CHAR: u8 = '=' as u8;

/// The symbol that stands for sextet `i`.
pub open spec fn symbol_of(i: u8) -> u8
    recommends
        i < N,
{
    if i < 26 {
        ('A' as u8 + i) as u8
    } else if i < 52 {
        ('a' as u8 + (i - 26)) as u8
    } else if i < 62 {
        ('0' as u8 + (i - 52)) as u8
    } else if i == 62 {
        '+' as u8
    } else {
        '/' as u8
    }
}

/// The sextet that the character `c` stands for, if it is a symbol of the
/// alphabet. The padding character, control characters and bytes outside
/// ASCII stand for none.
pub open spec fn sextet_of(c: u8) -> Option<u8> {
    if 'A' as u8 <= c <= 'Z' as u8 {
        Some((c - 'A' as u8) as u8)
    } else if 'a' as u8 <= c <= 'z' as u8 {
        Some((c - 'a' as u8 + 26) as u8)
    } else if '0' as u8 <= c <= '9' as u8 {
        Some((c - '0' as u8 + 52) as u8)
    } else if c == '+' as u8 {
        Some(62u8)
    } else if c == '/' as u8 {
        Some(63u8)
    } else {
        None
    }
}

/// Is `c` one of the 64 symbols?
pub open spec fn is_symbol(c: u8) -> bool {
    sextet_of(c) is Some
}

/// Get the base64 character at an index of the table.
pub fn get_table_char(index: u8) -> (table_char: u8)
    requires
        index < N,
    ensures
        table_char == symbol_of(index),
        table_char == TABLE@[index as int],
{
    TABLE[index as usize]
}

/// Get the index of input base64 character in the base64 table.
/// The returned index is in the range `[0, 63]`.
/// If the input character is not in the base64 table, return None.
pub fn get_table_index(input_char: u8) -> (index: Option<u8>)
    ensures
        index == sextet_of(input_char),
        index matches Some(i) ==> i < N && TABLE@[i as int] == input_char,
{
    if 'A' as u8 <= input_char && input_char <= 'Z' as u8 {
        // Uppercase letters
        Some(input_char - 'A' as u8)
    } else if 'a' as u8 <= input_char && input_char <= 'z' as u8 {
        // Lowercase letters
        Some((input_char - 'a' as u8) + 26)
    } else if '0' as u8 <= input_char && input_char <= '9' as u8 {
        // Digits
        Some((input_char - '0' as u8) + 52)
    } else if input_char == '+' as u8 {
        Some(62)
    } else if input_char == '/' as u8 {
        Some(63)
    } else {
        None
    }
}

/// The table holds the symbol of each sextet at the sextet's place. The
/// symbol is an ASCII character and not the padding character, and looking
/// it up finds the sextet again.
pub proof fn lemma_symbol_of_sextet(i: u8)
    requires
        i < N,
    ensures
        TABLE@[i as int] == symbol_of(i),
        sextet_of(symbol_of(i)) == Some(i),
        symbol_of(i) != PAD_CHAR,
        symbol_of(i) < 128,
{
}

/// A character that stands for a sextet is the symbol of that sextet, and of
/// no other: the assignment is one to one.
pub proof fn lemma_sextet_of_symbol(c: u8)
    requires
        is_symbol(c),
    ensures
        sextet_of(c).unwrap() < N,
        symbol_of(sextet_of(c).unwrap()) == c,
        forall|i: u8| i < N && symbol_of(i) == c ==> i == sextet_of(c).unwrap(),
{
}

/// The padding character stands for no sextet.
pub proof fn lemma_padding_is_no_symbol()
    ensures
        !is_symbol(PAD_CHAR),
{
}

} // verus!
