use base64_live::decode::{decode_bytes, decode_string};
use base64_live::encode::{encode_bytes, encode_string};

#[test]
fn test_round_trip_every_byte_value() {
    let all: Vec<u8> = (0..=255u8).collect();
    for start in 0..3 {
        for len in 0..=(all.len() - start) {
            let input = &all[start..start + len];
            assert_eq!(decode_bytes(&encode_bytes(input)), Ok(input.to_vec()));
        }
    }
}

#[test]
fn test_round_trip_short_inputs() {
    for a in [0x00u8, 0x01, 0x7f, 0x80, 0xfe, 0xff] {
        assert_eq!(decode_bytes(&encode_bytes(&[a])), Ok(vec![a]));
        for b in [0x00u8, 0x0f, 0xf0, 0xff] {
            assert_eq!(decode_bytes(&encode_bytes(&[a, b])), Ok(vec![a, b]));
            for c in [0x00u8, 0x3f, 0xc0, 0xff] {
                assert_eq!(decode_bytes(&encode_bytes(&[a, b, c])), Ok(vec![a, b, c]));
            }
        }
    }
}

#[test]
fn test_round_trip_strings() {
    for text in ["", "f", "fo", "foo", "hello, world", "\u{e9}t\u{e9}", "\u{1f600}\u{20ac}="] {
        assert_eq!(decode_string(&encode_string(text)), Ok(text.to_string()));
    }
}

#[test]
fn test_round_trip_with_surplus_padding() {
    for len in 0..12usize {
        let input: Vec<u8> = (0..len).map(|i| (i * 37 + 11) as u8).collect();
        let mut text = encode_bytes(&input);
        let plain = decode_bytes(&text);
        assert_eq!(plain, Ok(input));
        for _ in 0..5 {
            text.push(b'=');
            assert_eq!(decode_bytes(&text), plain);
        }
    }
}
