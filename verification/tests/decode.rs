use base64_live::decode::{decode_bytes, decode_string, DecodeError};

#[test]
fn test_decode_valid_lengths() {
    // Valid base64 encodings for 'a' repeated lengths 0..9
    let cases: &[(&[u8], &[u8])] = &[
        (b"", b""),
        (b"YQ==", b"a"),
        (b"YWE=", b"aa"),
        (b"YWFh", b"aaa"),
        (b"YWFhYQ==", b"aaaa"),
        (b"YWFhYWE=", b"aaaaa"),
        (b"YWFhYWFh", b"aaaaaa"),
        (b"YWFhYWFhYQ==", b"aaaaaaa"),
        (b"YWFhYWFhYWE=", b"aaaaaaaa"),
        (b"YWFhYWFhYWFh", b"aaaaaaaaa"),
    ];

    for (enc, expected) in cases {
        let got = decode_bytes(enc)
            .unwrap_or_else(|e| panic!("Decoding failed for {:?}: {:?}", enc, e));
        assert_eq!(&*got, *expected);
    }
}

#[test]
fn test_decode_valid_with_padding() {
    assert_eq!(decode_bytes(b"Zig=="), decode_bytes(b"Zig==="));
}

#[test]
fn test_decode_invalid_byte() {
    assert_eq!(decode_bytes(b"Zig!"), Err(DecodeError::InvalidByte(b'!')));
    assert_eq!(decode_bytes(b"Zig!"), Err(DecodeError::InvalidByte(b'!')));
}

#[test]
fn test_decode_wrong_padding_in_middle() {
    assert_eq!(decode_bytes(b"ab==cdef"), Err(DecodeError::WrongPadding));
    assert_eq!(decode_bytes(b"abcd==ef"), Err(DecodeError::WrongPadding));
    assert_eq!(decode_bytes(b"abcdef="), Err(DecodeError::WrongPadding));
    assert_eq!(decode_bytes(b"abcdefg"), Err(DecodeError::WrongPadding));
}

#[test]
fn test_decode_invalid_length_single_char() {
    assert_eq!(decode_bytes(b"a"), Err(DecodeError::InputLength));
    assert_eq!(decode_bytes(b"abcde"), Err(DecodeError::InputLength));
}

#[test]
fn test_decode_empty() {
    assert_eq!(decode_bytes(b""), Ok(Vec::new()));
    assert_eq!(decode_string(""), Ok(String::new()));
}

#[test]
fn test_decode_only_padding_is_empty() {
    assert_eq!(decode_bytes(b"="), Ok(Vec::new()));
    assert_eq!(decode_bytes(b"===="), Ok(Vec::new()));
}

#[test]
fn test_decode_canonical_vectors() {
    assert_eq!(decode_string("YQ=="), Ok("a".to_string()));
    assert_eq!(decode_string("YWFh"), Ok("aaa".to_string()));
    assert_eq!(decode_string("Zm9vYmFy"), Ok("foobar".to_string()));
    assert_eq!(decode_string("Zm9vYmE="), Ok("fooba".to_string()));
}

#[test]
fn test_decode_failure_vectors() {
    assert_eq!(decode_string("a"), Err(DecodeError::InputLength));
    assert_eq!(decode_string("abcde"), Err(DecodeError::InputLength));
    assert_eq!(decode_string("ab==cdef"), Err(DecodeError::WrongPadding));
    assert_eq!(decode_string("Zig!"), Err(DecodeError::InvalidByte(b'!')));
}

#[test]
fn test_decode_repack_formulas() {
    // E=4 j=35 R=17 W=22: 000100 100011 010001 010110 = 0x12 0x34 0x56
    assert_eq!(decode_bytes(b"EjRW"), Ok(vec![0x12, 0x34, 0x56]));
    assert_eq!(decode_bytes(b"////"), Ok(vec![0xff, 0xff, 0xff]));
    assert_eq!(decode_bytes(b"+/8="), Ok(vec![0xfb, 0xff]));
    assert_eq!(decode_bytes(b"/w=="), Ok(vec![0xff]));
    assert_eq!(decode_bytes(b"AAAA"), Ok(vec![0, 0, 0]));
}

#[test]
fn test_decode_drops_the_bits_left_over() {
    // the last sextet of a partial group may hold bits that reach no byte
    assert_eq!(decode_bytes(b"Zh=="), Ok(b"f".to_vec()));
    assert_eq!(decode_bytes(b"Zg=="), Ok(b"f".to_vec()));
    assert_eq!(decode_bytes(b"Zm9="), Ok(b"fo".to_vec()));
}

#[test]
fn test_decode_output_length() {
    assert_eq!(decode_bytes(b"AAAAAAAA").unwrap().len(), 6);
    assert_eq!(decode_bytes(b"AAAAAA==").unwrap().len(), 4);
    assert_eq!(decode_bytes(b"AAAAAAA=").unwrap().len(), 5);
}

#[test]
fn test_decode_needs_enough_padding() {
    assert_eq!(decode_bytes(b"YQ"), Err(DecodeError::WrongPadding));
    assert_eq!(decode_bytes(b"YQ="), Err(DecodeError::WrongPadding));
    assert_eq!(decode_bytes(b"YQ=="), Ok(b"a".to_vec()));
    assert_eq!(decode_bytes(b"YWE"), Err(DecodeError::WrongPadding));
    assert_eq!(decode_bytes(b"YWE="), Ok(b"aa".to_vec()));
}

#[test]
fn test_decode_accepts_surplus_padding() {
    assert_eq!(decode_bytes(b"Zig=="), Ok(vec![0x66, 0x28]));
    assert_eq!(decode_bytes(b"Zig==="), Ok(vec![0x66, 0x28]));
    assert_eq!(decode_bytes(b"YQ====="), Ok(b"a".to_vec()));
    assert_eq!(decode_bytes(b"YWFh="), Ok(b"aaa".to_vec()));
    assert_eq!(decode_bytes(b"YWFh===="), Ok(b"aaa".to_vec()));
}

#[test]
fn test_decode_length_is_checked_first() {
    // one character is left over, whatever it is and whatever stands before it
    assert_eq!(decode_bytes(b"!"), Err(DecodeError::InputLength));
    assert_eq!(decode_bytes(b"ab=cd"), Err(DecodeError::InputLength));
    assert_eq!(decode_bytes(b"!!!!a=="), Err(DecodeError::InputLength));
}

#[test]
fn test_decode_padding_is_checked_before_characters() {
    assert_eq!(decode_bytes(b"!bcdab=c"), Err(DecodeError::WrongPadding));
    assert_eq!(decode_bytes(b"ab=!"), Err(DecodeError::WrongPadding));
    assert_eq!(decode_bytes(b"!bcdef"), Err(DecodeError::WrongPadding));
    assert_eq!(decode_bytes(b"a=cdYQ=="), Err(DecodeError::WrongPadding));
}

#[test]
fn test_decode_reports_the_first_invalid_byte() {
    assert_eq!(decode_bytes(b"a!c#"), Err(DecodeError::InvalidByte(b'!')));
    assert_eq!(decode_bytes(b"abcd e=="), Err(DecodeError::InvalidByte(b' ')));
    assert_eq!(decode_bytes(b"abcde\n=="), Err(DecodeError::InvalidByte(b'\n')));
    assert_eq!(decode_bytes(b"abcdef\xff="), Err(DecodeError::InvalidByte(0xff)));
    assert_eq!(decode_bytes(b"-_=="), Err(DecodeError::InvalidByte(b'-')));
}

#[test]
fn test_decode_padding_inside_the_last_group() {
    // in a partial last group the padding character is a character like any other
    assert_eq!(decode_bytes(b"a=b="), Err(DecodeError::InvalidByte(b'=')));
    assert_eq!(decode_bytes(b"=a=="), Err(DecodeError::InvalidByte(b'=')));
}

#[test]
fn test_decode_string_replaces_invalid_utf8() {
    assert_eq!(decode_string("/w=="), Ok("\u{fffd}".to_string()));
    // 'a', a lone continuation byte, 'b'
    assert_eq!(decode_string("YYBi"), Ok("a\u{fffd}b".to_string()));
    // the first two bytes of a three-byte sequence
    assert_eq!(decode_string("4oI="), Ok("\u{fffd}".to_string()));
}

#[test]
fn test_decode_string_reads_valid_utf8() {
    assert_eq!(decode_string("w6k="), Ok("\u{e9}".to_string()));
    assert_eq!(decode_string("4oKs"), Ok("\u{20ac}".to_string()));
    assert_eq!(decode_string("8J+YgA=="), Ok("\u{1f600}".to_string()));
}

#[test]
fn test_decode_string_rejects_text_outside_ascii() {
    // U+00E9 is two bytes, neither of them a symbol
    assert_eq!(decode_string("abc\u{e9}="), Err(DecodeError::InputLength));
    assert_eq!(decode_string("ab\u{e9}"), Err(DecodeError::InvalidByte(0xc3)));
}
