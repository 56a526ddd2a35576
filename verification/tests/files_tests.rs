use helix::crypto::chacha::Key;
use helix::errors::HelixError;
use helix::files::{
    DecryptOutcome, EncryptOutcome, HelixFileDecryptor, HelixFileEncryptor,
};
use helix::filecrypto::ChunkObserver;
use helix::folder_walker::should_include;
use helix::observers::{
    get_fixed_filename, DecryptionEndState, DecryptionObserver, DecryptionStates,
    EncryptionEndState, EncryptionObserver, EncryptionStates,
};
use helix::storage::File;
use sha2::{Digest, Sha256};

const CAP: u32 = 1024 * 1024 * 2;

#[derive(Default)]
struct RecordingObserver {
    states: Vec<String>,
    ends: Vec<String>,
    bytes: u64,
}

impl ChunkObserver for RecordingObserver {
    fn bytes_processed(&mut self, byte_count: u64) {
        self.bytes += byte_count;
    }
}

impl EncryptionObserver for RecordingObserver {
    fn update_state(&mut self, state: EncryptionStates) {
        let name = match state {
            EncryptionStates::PlainFileCheck => "PlainFileCheck",
            EncryptionStates::EncryptedBlockCheck => "EncryptedBlockCheck",
        };
        self.states.push(String::from(name));
    }

    fn failed(&mut self, _error: HelixError) {
        self.ends.push(String::from("Failed"));
    }

    fn end(&mut self, end_state: EncryptionEndState) {
        let name = match end_state {
            EncryptionEndState::Done => "Done",
            EncryptionEndState::Unchanged => "Unchanged",
        };
        self.ends.push(String::from(name));
    }
}

impl DecryptionObserver for RecordingObserver {
    fn init_size(&mut self, _file_size: u64) {}

    fn update_state(&mut self, state: DecryptionStates) {
        let name = match state {
            DecryptionStates::EncryptedBlockCheck => "EncryptedBlockCheck",
        };
        self.states.push(String::from(name));
    }

    fn failed(&mut self, _error: HelixError) {
        self.ends.push(String::from("Failed"));
    }

    fn end(&mut self, end_state: DecryptionEndState) {
        let name = match end_state {
            DecryptionEndState::Done => "Done",
            DecryptionEndState::MalformedBlock => "MalformedBlock",
            DecryptionEndState::BlockNotFound => "BlockNotFound",
        };
        self.ends.push(String::from(name));
    }
}

fn sha256_hex(data: &[u8]) -> String {
    hex::encode(Sha256::digest(data))
}

fn created(outcome: EncryptOutcome) -> (File, Vec<u8>) {
    match outcome {
        EncryptOutcome::Created(f, b) => (f, b),
        _ => panic!("expected a created record"),
    }
}

fn updated(outcome: EncryptOutcome) -> (File, Vec<u8>) {
    match outcome {
        EncryptOutcome::Updated(f, b) => (f, b),
        _ => panic!("expected an updated record"),
    }
}

#[test]
fn create_single_file() {
    let master = Key::new();
    let encryptor = HelixFileEncryptor::from("src", &master, CAP);
    let contents = b"Hello, capsule!\n".to_vec();
    let mut observer = RecordingObserver::default();
    let outcome = encryptor.encrypt("src/hello.txt", &contents, &None, &None, &mut observer);
    let (file, block) = created(outcome);
    assert_eq!(file.plain_hash, sha256_hex(b"Hello, capsule!\n"));
    assert_eq!(file.id, sha256_hex(b"src/hello.txt"));
    assert_eq!(file.encrypted_hash, sha256_hex(&block));
    assert_eq!(observer.ends, vec![String::from("Done")]);

    let decryptor = HelixFileDecryptor::from("out", &master);
    let mut observer = RecordingObserver::default();
    let restored = decryptor.decrypt(&file, &Some(block), &mut observer).unwrap();
    match restored {
        DecryptOutcome::Done(path, data) => {
            assert_eq!(path, "out/hello.txt");
            assert_eq!(data, contents);
        },
        _ => panic!("expected a restored file"),
    }
    assert_eq!(observer.ends, vec![String::from("Done")]);
}

#[test]
fn incremental_no_op() {
    let master = Key::new();
    let encryptor = HelixFileEncryptor::from("src", &master, CAP);
    let contents = b"Hello, capsule!\n".to_vec();
    let mut observer = RecordingObserver::default();
    let outcome = encryptor.encrypt("src/hello.txt", &contents, &None, &None, &mut observer);
    let (file, block) = created(outcome);

    let mut observer = RecordingObserver::default();
    let again = encryptor.encrypt(
        "src/hello.txt",
        &contents,
        &Some(file),
        &Some(block),
        &mut observer,
    );
    assert!(matches!(again, EncryptOutcome::Unchanged));
    assert_eq!(observer.ends, vec![String::from("Unchanged")]);
    assert_eq!(
        observer.states,
        vec![String::from("PlainFileCheck"), String::from("EncryptedBlockCheck")]
    );
}

#[test]
fn modified_file() {
    let master = Key::new();
    let encryptor = HelixFileEncryptor::from("src", &master, CAP);
    let contents = b"Hello, capsule!\n".to_vec();
    let mut observer = RecordingObserver::default();
    let (file, block) = created(encryptor.encrypt(
        "src/hello.txt",
        &contents,
        &None,
        &None,
        &mut observer,
    ));

    let changed = b"Hello again.\n".to_vec();
    let mut observer = RecordingObserver::default();
    let outcome = encryptor.encrypt(
        "src/hello.txt",
        &changed,
        &Some(file.clone()),
        &Some(block.clone()),
        &mut observer,
    );
    let (file2, block2) = updated(outcome);
    assert_eq!(observer.ends, vec![String::from("Done")]);
    assert_eq!(file2.id, file.id);
    assert_ne!(file2.plain_hash, file.plain_hash);
    assert_ne!(file2.encrypted_hash, file.encrypted_hash);
    assert_ne!(file2.key, file.key);
    assert_ne!(file2.file_path, file.file_path);
    assert_ne!(block2, block);

    let decryptor = HelixFileDecryptor::from("fresh", &master);
    let mut observer = RecordingObserver::default();
    match decryptor.decrypt(&file2, &Some(block2), &mut observer).unwrap() {
        DecryptOutcome::Done(path, data) => {
            assert_eq!(path, "fresh/hello.txt");
            assert_eq!(data, changed);
        },
        _ => panic!("expected a restored file"),
    }
}

#[test]
fn tampered_block() {
    let master = Key::new();
    let encryptor = HelixFileEncryptor::from("src", &master, CAP);
    let contents = b"Hello, capsule!\n".to_vec();
    let mut observer = RecordingObserver::default();
    let (file, mut block) = created(encryptor.encrypt(
        "src/hello.txt",
        &contents,
        &None,
        &None,
        &mut observer,
    ));
    block[7] ^= 0x20;

    let decryptor = HelixFileDecryptor::from("out", &master);
    let mut observer = RecordingObserver::default();
    let outcome = decryptor.decrypt(&file, &Some(block), &mut observer).unwrap();
    assert!(matches!(outcome, DecryptOutcome::MalformedBlock));
    assert_eq!(observer.ends, vec![String::from("MalformedBlock")]);
}

#[test]
fn missing_block_is_reported_per_file() {
    let master = Key::new();
    let encryptor = HelixFileEncryptor::from("src", &master, CAP);
    let mut observer = RecordingObserver::default();
    let (file, _) = created(encryptor.encrypt(
        "src/hello.txt",
        &b"data".to_vec(),
        &None,
        &None,
        &mut observer,
    ));
    let decryptor = HelixFileDecryptor::from("out", &master);
    let mut observer = RecordingObserver::default();
    let outcome = decryptor.decrypt(&file, &None, &mut observer).unwrap();
    assert!(matches!(outcome, DecryptOutcome::BlockNotFound));
    assert_eq!(observer.ends, vec![String::from("BlockNotFound")]);
}

#[test]
fn consistent_tamper_is_a_malformed_capsule() {
    // A block swapped together with its recorded digest passes the digest
    // check; the failure then surfaces as a fatal capsule inconsistency.
    let master = Key::new();
    let encryptor = HelixFileEncryptor::from("src", &master, CAP);
    let mut observer = RecordingObserver::default();
    let (file, _) = created(encryptor.encrypt(
        "src/hello.txt",
        &b"data".to_vec(),
        &None,
        &None,
        &mut observer,
    ));
    let garbage: Vec<u8> = vec![0, 0, 0, 9, 1, 2];
    let mut forged = file.clone();
    forged.encrypted_hash = sha256_hex(&garbage);
    let decryptor = HelixFileDecryptor::from("out", &master);
    let mut observer = RecordingObserver::default();
    let err = decryptor.decrypt(&forged, &Some(garbage), &mut observer).unwrap_err();
    assert_eq!(err.code, "MalformedCapsule");
}

#[test]
fn foreign_record_is_a_malformed_capsule() {
    let master = Key::new();
    let file = File {
        id: String::from("0123"),
        key: String::from("not a wrapped key"),
        plain_hash: String::from("00"),
        encrypted_hash: String::from("00"),
        file_path: String::from("00"),
    };
    let decryptor = HelixFileDecryptor::from("out", &master);
    let mut observer = RecordingObserver::default();
    let err = decryptor.decrypt(&file, &None, &mut observer).unwrap_err();
    assert_eq!(err.code, "MalformedCapsule");
}

#[test]
fn fresh_data_keys_for_every_pass() {
    let master = Key::new();
    let encryptor = HelixFileEncryptor::from("src", &master, CAP);
    let contents = b"same contents".to_vec();
    let mut observer = RecordingObserver::default();
    let (a, _) = created(encryptor.encrypt("src/f", &contents, &None, &None, &mut observer));
    let mut observer = RecordingObserver::default();
    let (b, _) = created(encryptor.encrypt("src/f", &contents, &None, &None, &mut observer));
    // The wrapped key's nonce field stands in clear at a fixed offset.
    assert_ne!(a.key[115..139], b.key[115..139]);
    assert_ne!(a.key, b.key);
}

#[test]
fn nested_directory_with_hidden_exclusion() {
    assert!(should_include("src/a.txt", "a.txt"));
    assert!(should_include("src/sub/b.txt", "b.txt"));
    assert!(!should_include("src/.hidden.txt", ".hidden.txt"));
    assert!(!should_include("src/.helix/junk", "junk"));
    assert!(!should_include("src/helix.exe", "helix.exe"));

    let master = Key::new();
    let encryptor = HelixFileEncryptor::from("src", &master, CAP);
    let tree: Vec<(&str, &[u8])> = vec![
        ("src/a.txt", b"alpha"),
        ("src/sub/b.txt", b"beta"),
    ];
    let decryptor = HelixFileDecryptor::from("dst", &master);
    for (path, data) in tree {
        let mut observer = RecordingObserver::default();
        let (file, block) = created(encryptor.encrypt(
            path,
            &data.to_vec(),
            &None,
            &None,
            &mut observer,
        ));
        let mut observer = RecordingObserver::default();
        match decryptor.decrypt(&file, &Some(block), &mut observer).unwrap() {
            DecryptOutcome::Done(out_path, out_data) => {
                assert_eq!(out_path, format!("dst/{}", &path[4..]));
                assert_eq!(out_data, data.to_vec());
            },
            _ => panic!("expected a restored file"),
        }
    }
}

#[test]
fn source_striper() {
    let master = Key::new();
    let encryptor = HelixFileEncryptor::from(".", &master, CAP);
    let stripped = encryptor.strip_source("./mid/hello.txt");
    assert_eq!(stripped, "mid/hello.txt");
    println!("{:?}", stripped);
}

#[test]
fn fixed_filename_is_twenty_characters() {
    assert_eq!(get_fixed_filename("a.txt"), "a.txt               ");
    assert_eq!(
        get_fixed_filename("a-rather-long-file-name.txt"),
        "a-rather-long-fil..."
    );
    assert_eq!(get_fixed_filename("exactly-twenty-chars"), "exactly-twenty-chars");
    assert_eq!(get_fixed_filename("").len(), 20);
}
