use helix::codecs::{decode, decode_vec, encode, encode_vec, is_hex};

#[test]
fn encode_matches_reference_hex() {
    let data: Vec<u8> = vec![0x00, 0x01, 0x0f, 0x10, 0xab, 0xcd, 0xef, 0xff];
    assert_eq!(encode(data.as_slice()), hex::encode(&data));
}

#[test]
fn encode_empty_is_empty() {
    let data: Vec<u8> = Vec::new();
    assert_eq!(encode(data.as_slice()), "");
}

#[test]
fn encode_vec_then_decode_vec_round_trips() {
    let data: Vec<u8> = (0u16..=255).map(|b| b as u8).collect();
    let text = encode_vec(data.clone());
    assert_eq!(text.len(), 512);
    let back = decode_vec(text);
    assert_eq!(back, data);
}

#[test]
fn decode_vec_accepts_uppercase() {
    assert_eq!(decode_vec(String::from("ABCDEF")), vec![0xab, 0xcd, 0xef]);
    assert_eq!(decode_vec(String::from("abcdef")), vec![0xab, 0xcd, 0xef]);
}

#[test]
fn decode_fills_prepared_buffer() {
    let mut out: Vec<u8> = vec![0; 4];
    decode(String::from("deadbeef"), &mut out);
    assert_eq!(out, vec![0xde, 0xad, 0xbe, 0xef]);
}

#[test]
fn is_hex_accepts_digit_pairs_only() {
    assert!(is_hex("00ff"));
    assert!(is_hex(""));
    assert!(is_hex("AbCd"));
    assert!(!is_hex("0"));
    assert!(!is_hex("0g"));
    assert!(!is_hex("zz"));
    assert!(!is_hex("0 1"));
}
