use helix::crypto::chacha::Key;
use helix::filecrypto::chacha::{CCFileDecryptor, CCFileEncryptor};
use helix::filecrypto::{ChunkObserver, FileDecryptor, FileEncryptor};

struct CountingObserver {
    bytes: u64,
    calls: u64,
}

impl ChunkObserver for CountingObserver {
    fn bytes_processed(&mut self, byte_count: u64) {
        self.bytes += byte_count;
        self.calls += 1;
    }
}

fn round_trip(contents: &[u8], chunk_size: u32) -> (Vec<u8>, Vec<u8>) {
    let key = Key::new();
    let encryptor = CCFileEncryptor::from(&key, chunk_size);
    let mut observer = CountingObserver { bytes: 0, calls: 0 };
    let block = encryptor.encrypt(contents.to_vec(), &mut observer);
    assert_eq!(observer.bytes, contents.len() as u64);
    let decryptor = CCFileDecryptor::from(&key);
    let mut observer = CountingObserver { bytes: 0, calls: 0 };
    let plain = decryptor.decrypt(block.clone(), &mut observer).unwrap();
    (block, plain)
}

#[test]
fn file_encrypt_decrypt_round_trips_small() {
    let contents = b"Hello, capsule!\n";
    let (_, plain) = round_trip(contents, 1024 * 1024 * 2);
    assert_eq!(plain, contents.to_vec());
}

#[test]
fn file_encrypt_decrypt_round_trips_empty() {
    let (block, plain) = round_trip(b"", 1024);
    assert_eq!(block, Vec::<u8>::new());
    assert_eq!(plain, Vec::<u8>::new());
}

#[test]
fn file_encrypt_decrypt_round_trips_across_chunks() {
    let contents: Vec<u8> = (0u32..10_000).map(|i| (i % 251) as u8).collect();
    let (block, plain) = round_trip(&contents, 1024);
    assert_eq!(plain, contents);
    // nine full chunks, each framed as 4 length bytes + 1024 plain + 16 tag
    let chunks = 9;
    let remainder = 10_000 - chunks * 1024;
    assert_eq!(
        block.len(),
        chunks * (4 + 1024 + 16) + (4 + remainder + 16)
    );
}

#[test]
fn file_encrypt_decrypt_round_trips_at_exact_boundary() {
    let contents: Vec<u8> = vec![9u8; 2048];
    let (block, plain) = round_trip(&contents, 1024);
    assert_eq!(plain, contents);
    assert_eq!(block.len(), 2 * (4 + 1024 + 16));
}

#[test]
fn observer_sees_each_chunk_once() {
    let key = Key::new();
    let encryptor = CCFileEncryptor::from(&key, 100);
    let mut observer = CountingObserver { bytes: 0, calls: 0 };
    let contents = vec![1u8; 250];
    let block = encryptor.encrypt(contents.clone(), &mut observer);
    assert_eq!(observer.calls, 3);
    assert_eq!(observer.bytes, 250);
    let decryptor = CCFileDecryptor::from(&key);
    let mut observer = CountingObserver { bytes: 0, calls: 0 };
    decryptor.decrypt(block, &mut observer).unwrap();
    assert_eq!(observer.calls, 3);
}

#[test]
fn tampered_block_fails_decryption() {
    let key = Key::new();
    let encryptor = CCFileEncryptor::from(&key, 1024);
    let mut observer = CountingObserver { bytes: 0, calls: 0 };
    let mut block = encryptor.encrypt(b"sensitive".to_vec(), &mut observer);
    let last = block.len() - 1;
    block[last] ^= 0x80;
    let decryptor = CCFileDecryptor::from(&key);
    let mut observer = CountingObserver { bytes: 0, calls: 0 };
    assert!(decryptor.decrypt(block, &mut observer).is_err());
}

#[test]
fn wrong_key_fails_decryption() {
    let key = Key::new();
    let other = Key::new();
    let encryptor = CCFileEncryptor::from(&key, 1024);
    let mut observer = CountingObserver { bytes: 0, calls: 0 };
    let block = encryptor.encrypt(b"sensitive".to_vec(), &mut observer);
    let decryptor = CCFileDecryptor::from(&other);
    let mut observer = CountingObserver { bytes: 0, calls: 0 };
    assert!(decryptor.decrypt(block, &mut observer).is_err());
}

#[test]
fn truncated_block_is_malformed() {
    let key = Key::new();
    let encryptor = CCFileEncryptor::from(&key, 1024);
    let mut observer = CountingObserver { bytes: 0, calls: 0 };
    let block = encryptor.encrypt(b"0123456789".to_vec(), &mut observer);
    let truncated = block[..block.len() - 3].to_vec();
    let decryptor = CCFileDecryptor::from(&key);
    let mut observer = CountingObserver { bytes: 0, calls: 0 };
    let err = decryptor.decrypt(truncated, &mut observer).unwrap_err();
    assert_eq!(err.detailed_code, "MalformedBlock");
}
