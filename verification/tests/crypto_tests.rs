use helix::crypto::chacha::{ByteDecryptorImpl, ByteEncryptorImpl, Key};
use helix::crypto::envelope::{KeyDecryptor, KeyEncryptor};
use helix::crypto::{ByteDecryptor, ByteEncryptor};

#[test]
fn key_encrypt_decrypt_test() {
    let key = Key::new();
    let key_encryptor = KeyEncryptor::from(&key);
    let key_decryptor = KeyDecryptor::from(&key);
    let encrypted = key_encryptor.encrypt(&key);
    let decrypted = key_decryptor.decrypt(encrypted.as_str()).unwrap();
    println!("{:?}", decrypted);
}

#[test]
fn chacha_encryption_test() {
    let key = Key::new();
    let encryptor = ByteEncryptorImpl::from(&key);
    let decryptor = ByteDecryptorImpl::from(&key);
    let mut data = b"jdrm".to_vec();
    encryptor.encrypt(&mut data);
    println!("{:?}", data.len());
    println!("{:?}", data);
    decryptor.decrypt(&mut data).unwrap();
    println!("{:?}", data.len());
}

#[test]
fn byte_round_trip_restores_plaintext() {
    let key = Key::new();
    let encryptor = ByteEncryptorImpl::from(&key);
    let decryptor = ByteDecryptorImpl::from(&key);
    let plain = b"some bytes worth protecting".to_vec();
    let mut buffer = plain.clone();
    encryptor.encrypt(&mut buffer);
    assert_eq!(buffer.len(), plain.len() + 16);
    assert_ne!(&buffer[..plain.len()], plain.as_slice());
    decryptor.decrypt(&mut buffer).unwrap();
    assert_eq!(buffer, plain);
}

#[test]
fn byte_decrypt_rejects_tampering() {
    let key = Key::new();
    let encryptor = ByteEncryptorImpl::from(&key);
    let decryptor = ByteDecryptorImpl::from(&key);
    let mut buffer = b"payload".to_vec();
    encryptor.encrypt(&mut buffer);
    buffer[0] ^= 0x01;
    let err = decryptor.decrypt(&mut buffer).unwrap_err();
    assert_eq!(err.code, "MalformedCapsule");
}

#[test]
fn from_seed_is_deterministic() {
    let seed: Vec<u8> = (0u8..32).collect();
    let a = Key::from_seed(&seed);
    let b = Key::from_seed(&seed);
    assert_eq!(a.key, b.key);
    assert_eq!(a.nonce, b.nonce);
    assert_eq!(a.key.len(), 32);
    assert_eq!(a.nonce.len(), 12);
    let mut other = seed.clone();
    other[0] ^= 0xff;
    let c = Key::from_seed(&other);
    assert_ne!(a.key, c.key);
}

#[test]
fn fresh_keys_differ() {
    let a = Key::new();
    let b = Key::new();
    assert_ne!(a.key, b.key);
    assert_ne!(a.nonce, b.nonce);
}

#[test]
fn wrapped_key_text_has_fixed_shape() {
    let parent = Key::new();
    let child = Key::new();
    let text = KeyEncryptor::from(&parent).encrypt(&child);
    assert_eq!(text.len(), 141);
    assert!(text.starts_with("{\"key\":\""));
    assert!(text.ends_with("\"}"));
    assert_eq!(&text[104..115], "\",\"nonce\":\"");
    assert_eq!(&text[115..139], hex::encode(&child.nonce));
}

#[test]
fn unwrap_restores_wrapped_key() {
    let parent = Key::new();
    let child = Key::new();
    let text = KeyEncryptor::from(&parent).encrypt(&child);
    let back = KeyDecryptor::from(&parent).decrypt(text.as_str()).unwrap();
    assert_eq!(back.key, child.key);
    assert_eq!(back.nonce, child.nonce);
}

#[test]
fn unwrap_under_wrong_parent_fails() {
    let parent = Key::new();
    let other = Key::new();
    let child = Key::new();
    let text = KeyEncryptor::from(&parent).encrypt(&child);
    let err = KeyDecryptor::from(&other).decrypt(text.as_str()).unwrap_err();
    assert_eq!(err.code, "MalformedCapsule");
    assert_eq!(err.detailed_code, "AuthenticationFailure");
}

#[test]
fn unwrap_rejects_malformed_blobs() {
    let parent = Key::new();
    let decryptor = KeyDecryptor::from(&parent);
    assert!(decryptor.decrypt("").is_err());
    assert!(decryptor.decrypt("{\"key\":\"zz\",\"nonce\":\"aa\"}").is_err());
    let child = Key::new();
    let mut text = KeyEncryptor::from(&parent).encrypt(&child);
    text.truncate(140);
    assert!(decryptor.decrypt(text.as_str()).is_err());
}
