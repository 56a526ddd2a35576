use helix::util::{decode, decode_vec, encode, encode_vec, hash_bytes, hash_string};
use sha2::{Digest, Sha256};

#[test]
fn util_hex_round_trips() {
    let data: Vec<u8> = vec![0xde, 0xad, 0xbe, 0xef];
    let text = encode(data.as_slice());
    assert_eq!(text, "deadbeef");
    assert_eq!(decode_vec(&text), data);
    assert_eq!(encode_vec(data.clone()), text);
    let mut out: Vec<u8> = vec![0; 4];
    decode(text, &mut out);
    assert_eq!(out, data);
}

#[test]
fn hash_bytes_matches_reference_sha256() {
    let data = b"Hello, capsule!\n";
    assert_eq!(hash_bytes(data), hex::encode(Sha256::digest(data)));
    assert_eq!(hash_bytes(b"").len(), 64);
}

#[test]
fn hash_string_hashes_utf8_bytes() {
    assert_eq!(hash_string("Hello, capsule!\n"), hash_bytes(b"Hello, capsule!\n"));
    // The SHA-256 of the empty string, as every implementation yields it.
    assert_eq!(
        hash_string(""),
        "e3b0c44298fc1c149afbf4c8996fb92427ae41e4649b934ca495991b7852b855"
    );
}
