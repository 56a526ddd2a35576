use helix::capsule::{check_capsule_layout, master_key_for_decrypt, master_key_for_encrypt};
use helix::master_key::MasterKeyManager;
use helix::util::hash_string;

#[test]
fn generate_test() {
    let (key, row) = MasterKeyManager::generate("passphrase");
    assert_eq!(key.key.len(), 32);
    assert_eq!(key.nonce.len(), 12);
    assert_eq!(row.passphrase_digest.len(), 64);
}

#[test]
fn get_test() {
    let key = MasterKeyManager::get("passphrase", &None);
    assert!(key.unwrap().is_none());
}

#[test]
fn generate_then_get_restores_master_key() {
    let (key, row) = MasterKeyManager::generate("passphrase");
    assert_eq!(row.passphrase_digest, hash_string("passphrase"));
    let got = MasterKeyManager::get("passphrase", &Some(row)).unwrap().unwrap();
    assert_eq!(got.key, key.key);
    assert_eq!(got.nonce, key.nonce);
}

#[test]
fn get_with_empty_store_returns_nothing() {
    assert!(MasterKeyManager::get("passphrase", &None).unwrap().is_none());
}

#[test]
fn wrong_passphrase_is_rejected_before_unwrap() {
    let (_, row) = MasterKeyManager::generate("passphrase");
    let err = MasterKeyManager::get("nope", &Some(row)).unwrap_err();
    assert_eq!(err.code, "BadInput");
    assert_eq!(err.detailed_code, "PassphraseMismatch");
}

#[test]
fn tampered_digest_is_rejected_even_with_good_wrap() {
    let (_, mut row) = MasterKeyManager::generate("passphrase");
    row.passphrase_digest = hash_string("someone else");
    let err = MasterKeyManager::get("passphrase", &Some(row)).unwrap_err();
    assert_eq!(err.detailed_code, "PassphraseMismatch");
}

#[test]
fn tampered_wrap_is_a_malformed_capsule() {
    let (_, mut row) = MasterKeyManager::generate("passphrase");
    row.master_key = String::from("not a wrapped key");
    let err = MasterKeyManager::get("passphrase", &Some(row)).unwrap_err();
    assert_eq!(err.code, "MalformedCapsule");
}

#[test]
fn layout_check_names_each_missing_piece() {
    assert!(check_capsule_layout(true, true, true).is_ok());
    let e = check_capsule_layout(false, true, true).unwrap_err();
    assert_eq!(e.code, "InvalidHelixCapsule");
    assert_eq!(e.detailed_code, "NoHelixFolder");
    let e = check_capsule_layout(true, false, true).unwrap_err();
    assert_eq!(e.detailed_code, "NoDBFile");
    let e = check_capsule_layout(true, true, false).unwrap_err();
    assert_eq!(e.detailed_code, "NoBlocksFolder");
}

#[test]
fn decrypt_needs_a_master_key_row() {
    let err = master_key_for_decrypt("passphrase", &None).unwrap_err();
    assert_eq!(err.code, "InvalidHelixCapsule");
    assert_eq!(err.detailed_code, "NoMasterKey");
}

#[test]
fn encrypt_generates_once_and_reloads_after() {
    let (key, row) = master_key_for_encrypt("passphrase", &None).unwrap();
    let row = row.expect("a fresh capsule stores a new master-key row");
    let (again, no_row) = master_key_for_encrypt("passphrase", &Some(row)).unwrap();
    assert!(no_row.is_none());
    assert_eq!(again.key, key.key);
    assert_eq!(again.nonce, key.nonce);
}

#[test]
fn encrypt_rejects_wrong_passphrase_on_existing_capsule() {
    let (_, row) = master_key_for_encrypt("passphrase", &None).unwrap();
    let err = master_key_for_encrypt("other", &row).unwrap_err();
    assert_eq!(err.detailed_code, "PassphraseMismatch");
}

#[test]
fn hash_string_matches_reference_sha256() {
    // The SHA-256 of "abc", as every implementation of the function yields it.
    assert_eq!(
        hash_string("abc"),
        "ba7816bf8f01cfea414140de5dae2223b00361a396177a9cb410ff61f20015ad"
    );
}
