//! The records the metadata store holds.
//!
//! The store itself is an embedded database owned by the shell; the core only
//! ever sees these two row types and states its contracts over them.

use vstd::prelude::*;

verus! {

/// One tracked source file.
#[derive(Debug, Clone)]
pub struct File {
    /// Hex digest of the source path: the primary key and the block name.
    pub id: String,
    /// The file's data key, wrapped under the master key.
    pub key: String,
    /// Hex digest of the plaintext, for change detection.
    pub plain_hash: String,
    /// Hex digest of the block file, for integrity checking.
    pub encrypted_hash: String,
    /// The source-relative path, encrypted under the data key and
    /// hex-encoded.
    pub file_path: String,
}

/// The capsule's singleton master-key row.
#[derive(Debug)]
pub struct MasterKey {
    /// Hex digest of the passphrase.
    pub passphrase_digest: String,
    /// The master key, wrapped under the passphrase key.
    pub master_key: String,
}

} // verus!
