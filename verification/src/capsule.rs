//! Capsule setup decisions: layout checks and the master key for a run.
//!
//! The shell probes the file system and hands plain findings in; these
//! functions decide which fatal error a bad capsule yields and how the
//! master key for the run is obtained — loaded for decryption, loaded or
//! freshly generated for encryption.

use vstd::prelude::*;
use crate::crypto::chacha::{key_wf, Key, KeyView};
use crate::crypto::envelope::wraps;
use crate::errors::HelixError;
use crate::master_key::{passphrase_digest_of, passphrase_key_of, MasterKeyManager};
use crate::storage::MasterKey;

verus! {

/// Checks a capsule's layout before decryption: the hidden folder, the
/// metadata store and the block directory must all exist, and each missing
/// piece has its own error.
pub fn check_capsule_layout(
    has_helix_folder: bool,
    has_db_file: bool,
    has_blocks_folder: bool,
) -> (r: Result<(), HelixError>)
    ensures
        r is Ok <==> has_helix_folder && has_db_file && has_blocks_folder,
        r is Err ==> r->Err_0.code@ == "InvalidHelixCapsule"@,
        !has_helix_folder ==> r is Err && r->Err_0.detailed_code@ == "NoHelixFolder"@,
        has_helix_folder && !has_db_file ==> r is Err && r->Err_0.detailed_code@ == "NoDBFile"@,
        has_helix_folder && has_db_file && !has_blocks_folder ==> r is Err
            && r->Err_0.detailed_code@ == "NoBlocksFolder"@,
{
    if !has_helix_folder {
        return Err(
            HelixError::from("InvalidHelixCapsule", "NoHelixFolder", ".helix folder not found"),
        );
    }
    if !has_db_file {
        return Err(
            HelixError::from("InvalidHelixCapsule", "NoDBFile", "metadata.db file not found"),
        );
    }
    if !has_blocks_folder {
        return Err(
            HelixError::from("InvalidHelixCapsule", "NoBlocksFolder", "blocks folder not found"),
        );
    }
    Ok(())
}

/// The master key for a decryption run: the stored row is required, its
/// digest must match the passphrase, and its blob must unwrap.
pub fn master_key_for_decrypt(passphrase: &str, stored: &Option<MasterKey>) -> (r: Result<
    Key,
    HelixError,
>)
    ensures
        stored is None ==> r is Err && r->Err_0.detailed_code@ == "NoMasterKey"@,
        (stored matches Some(row) && row.passphrase_digest@ != passphrase_digest_of(passphrase@))
            ==> r is Err && r->Err_0.detailed_code@ == "PassphraseMismatch"@,
        forall|k: KeyView|
            (stored is Some && stored->0.passphrase_digest@ == passphrase_digest_of(passphrase@)
                && #[trigger] wraps(passphrase_key_of(passphrase@), k, stored->0.master_key@))
                ==> r is Ok && r->Ok_0@ == k,
        r is Ok ==> (stored matches Some(row) && key_wf(r->Ok_0@) && row.passphrase_digest@
            == passphrase_digest_of(passphrase@) && wraps(
            passphrase_key_of(passphrase@),
            r->Ok_0@,
            row.master_key@,
        )),
{
    match MasterKeyManager::get(passphrase, stored) {
        Ok(Some(key)) => Ok(key),
        Ok(None) => Err(
            HelixError::from("InvalidHelixCapsule", "NoMasterKey", "Master key not found in db"),
        ),
        Err(e) => Err(e),
    }
}

/// The master key for an encryption run: loaded from the stored row, or
/// generated afresh for an empty capsule, in which case the new row to
/// insert comes back beside the key.
pub fn master_key_for_encrypt(passphrase: &str, stored: &Option<MasterKey>) -> (r: Result<
    (Key, Option<MasterKey>),
    HelixError,
>)
    ensures
        (stored matches Some(row) && row.passphrase_digest@ != passphrase_digest_of(passphrase@))
            ==> r is Err && r->Err_0.detailed_code@ == "PassphraseMismatch"@,
        r is Ok ==> key_wf(r->Ok_0.0@),
        stored is None ==> (r is Ok && (r->Ok_0.1 matches Some(row) && row.passphrase_digest@
            == passphrase_digest_of(passphrase@) && wraps(
            passphrase_key_of(passphrase@),
            r->Ok_0.0@,
            row.master_key@,
        ))),
        stored is Some ==> (r is Ok ==> r->Ok_0.1 is None),
        forall|k: KeyView|
            (stored is Some && stored->0.passphrase_digest@ == passphrase_digest_of(passphrase@)
                && #[trigger] wraps(passphrase_key_of(passphrase@), k, stored->0.master_key@))
                ==> r is Ok && r->Ok_0.0@ == k,
{
    match MasterKeyManager::get(passphrase, stored) {
        Ok(Some(key)) => Ok((key, None)),
        Ok(None) => {
            let (key, row) = MasterKeyManager::generate(passphrase);
            Ok((key, Some(row)))
        },
        Err(e) => Err(e),
    }
}

} // verus!
