//! The per-file drivers: skip, create, update and restore one tracked file.
//!
//! The encryptor decides from the stored record and the block on disk whether
//! a source file is unchanged, and otherwise encrypts it under a fresh data
//! key and builds the record to store. The decryptor unwraps a record's data
//! key, recovers the relative path, checks the block's digest and restores
//! the contents. `written_record` is the contract between the two: the
//! decryptor's round-trip clause restores exactly what a pass that produced
//! a `written_record` wrote.

use vstd::prelude::*;
use crate::crypto::chacha::{
    aead_cipher_of, key_wf, Key, KeyView, ByteDecryptorImpl, ByteEncryptorImpl,
};
use crate::crypto::envelope::{wraps, KeyDecryptor, KeyEncryptor};
use crate::crypto::{ByteDecryptor, ByteEncryptor};
use crate::errors::HelixError;
use crate::filecrypto::chacha::{CCFileDecryptor, CCFileEncryptor};
use crate::filecrypto::{block_of, block_plain_of, FileDecryptor, FileEncryptor};
use crate::master_key::strings_equal;
use crate::observers::{
    DecryptionEndState, DecryptionObserver, DecryptionStates, EncryptionEndState,
    EncryptionObserver, EncryptionStates,
};
use crate::storage::File;
use crate::util::{bytes_to_string, hash_bytes, hash_string, hash_hex_of, string_hash_hex_of};

verus! {

/// A file's identity: the digest text of its source path.
pub open spec fn file_id_of(path: Seq<char>) -> Seq<char> {
    string_hash_hex_of(path)
}

/// `text` stores `rel` encrypted under the data key and hex-encoded.
pub open spec fn path_cipher_ok(dk: KeyView, rel: Seq<char>, text: Seq<char>) -> bool {
    &&& text == crate::codecs::hex_chars_of(
        aead_cipher_of(dk.k, dk.n, vstd::utf8::encode_utf8(rel)),
    )
    &&& aead_cipher_of(dk.k, dk.n, vstd::utf8::encode_utf8(rel)).len() == vstd::utf8::encode_utf8(
        rel,
    ).len() + 16
}

/// The record `f` and the block describe `contents` at relative path `rel`,
/// under a data key wrapped by the master key: what the decryptor needs.
pub open spec fn record_matches(
    mk: KeyView,
    dk: KeyView,
    rel: Seq<char>,
    contents: Seq<u8>,
    cap: int,
    f: File,
    block: Seq<u8>,
) -> bool {
    &&& key_wf(dk)
    &&& wraps(mk, dk, f.key@)
    &&& path_cipher_ok(dk, rel, f.file_path@)
    &&& block_of(dk, contents, cap, block)
    &&& f.encrypted_hash@ == hash_hex_of(block)
}

/// Everything one encryption pass writes for a source file: the decryptor's
/// premise plus the file id and the plaintext digest.
pub open spec fn written_record(
    mk: KeyView,
    dk: KeyView,
    path: Seq<char>,
    rel: Seq<char>,
    contents: Seq<u8>,
    cap: int,
    f: File,
    block: Seq<u8>,
) -> bool {
    &&& record_matches(mk, dk, rel, contents, cap, f, block)
    &&& f.id@ == file_id_of(path)
    &&& f.plain_hash@ == hash_hex_of(contents)
}

/// The test the encryptor skips by: the record still describes the contents
/// and a block with the recorded digest is on disk.
pub open spec fn unchanged_check(f: File, contents: Seq<u8>, block: Option<Seq<u8>>) -> bool {
    &&& f.plain_hash@ == hash_hex_of(contents)
    &&& block is Some
    &&& hash_hex_of(block->0) == f.encrypted_hash@
}

/// The bytes of an optional block.
pub open spec fn block_view(b: Option<Vec<u8>>) -> Option<Seq<u8>> {
    match b {
        Some(v) => Some(v@),
        None => None,
    }
}

/// `path` lies under `source`: it is `source`, a separator, and the rest.
pub open spec fn strip_ok(source: Seq<char>, path: Seq<char>) -> bool {
    &&& path.len() > source.len()
    &&& path.take(source.len() as int) == source
    &&& path[source.len() as int] == '/'
}

/// The source-relative part of `path`.
pub open spec fn rel_of(source: Seq<char>, path: Seq<char>) -> Seq<char> {
    path.skip(source.len() as int + 1)
}

/// A restored file's target: the destination, a separator, the relative
/// path.
pub open spec fn dest_path_of(dest: Seq<char>, rel: Seq<char>) -> Seq<char> {
    dest + "/"@ + rel
}

/// What one encryption pass decided for one file.
#[derive(Debug)]
pub enum EncryptOutcome {
    /// A new record and its block bytes, to store and to write.
    Created(File, Vec<u8>),
    /// A replacement record and its block bytes, to update and to rewrite.
    Updated(File, Vec<u8>),
    /// The record and block still describe the source file: nothing to do.
    Unchanged,
}

/// What one decryption pass decided for one record.
#[derive(Debug)]
pub enum DecryptOutcome {
    /// The restored file: its destination path and its contents.
    Done(String, Vec<u8>),
    /// The record's block file is missing; the walk continues.
    BlockNotFound,
    /// The block on disk does not match the recorded digest; the walk
    /// continues.
    MalformedBlock,
}

/// The record an encryption pass wrote (meaningless for a skipped file).
pub open spec fn outcome_file(r: EncryptOutcome) -> File {
    match r {
        EncryptOutcome::Created(f, _) => f,
        EncryptOutcome::Updated(f, _) => f,
        EncryptOutcome::Unchanged => vstd::pervasive::arbitrary(),
    }
}

/// The block bytes an encryption pass wrote (meaningless for a skipped
/// file).
pub open spec fn outcome_block(r: EncryptOutcome) -> Seq<u8> {
    match r {
        EncryptOutcome::Created(_, b) => b@,
        EncryptOutcome::Updated(_, b) => b@,
        EncryptOutcome::Unchanged => vstd::pervasive::arbitrary(),
    }
}

/// After a pass wrote a record and its block, an immediately repeated pass
/// finds them unchanged: encrypting twice in a row skips the second time.
pub proof fn lemma_encrypt_idempotent(
    mk: KeyView,
    dk: KeyView,
    path: Seq<char>,
    rel: Seq<char>,
    contents: Seq<u8>,
    cap: int,
    f: File,
    block: Seq<u8>,
)
    requires
        written_record(mk, dk, path, rel, contents, cap, f, block),
    ensures
        unchanged_check(f, contents, Some(block)),
{
}

/// A source change defeats the skip test: a record written for other
/// contents never passes it, whatever block is on disk.
pub proof fn lemma_changed_source_reencrypts(
    f: File,
    contents: Seq<u8>,
    block: Option<Seq<u8>>,
)
    requires
        f.plain_hash@ != hash_hex_of(contents),
    ensures
        !unchanged_check(f, contents, block),
{
}

/// What an encryption pass wrote, a decryption pass accepts: the written
/// record and block satisfy the decryptor's premise for the same relative
/// path and contents.
pub proof fn lemma_written_record_decrypts(
    mk: KeyView,
    dk: KeyView,
    path: Seq<char>,
    rel: Seq<char>,
    contents: Seq<u8>,
    cap: int,
    f: File,
    block: Seq<u8>,
)
    requires
        written_record(mk, dk, path, rel, contents, cap, f, block),
    ensures
        record_matches(mk, dk, rel, contents, cap, f, block),
{
}

/// Encrypts source files into capsule records and blocks.
pub struct HelixFileEncryptor<'a> {
    pub source_folder: &'a str,
    pub master_key: &'a Key,
    pub chunk_size: u32,
}

impl<'a> HelixFileEncryptor<'a> {
    /// Binds the encryptor to the source root, the master key and the chunk
    /// capacity.
    pub fn from(source_folder: &'a str, master_key: &'a Key, chunk_size: u32) -> (r: Self)
        ensures
            r.source_folder@ == source_folder@,
            r.master_key@ == master_key@,
            r.chunk_size == chunk_size,
    {
        HelixFileEncryptor { source_folder, master_key, chunk_size }
    }

    /// Decides one source file: skip it, or encrypt it and hand back what to
    /// store.
    ///
    /// `existing` is the stored record for this file's id, `current_block`
    /// the bytes of its block file if one is on disk. The pass skips exactly
    /// when the record still carries the plaintext's digest and the block on
    /// disk carries the recorded block digest.
    pub fn encrypt<O: EncryptionObserver>(
        &self,
        file_path: &str,
        contents: &Vec<u8>,
        existing: &Option<File>,
        current_block: &Option<Vec<u8>>,
        observer: &mut O,
    ) -> (r: EncryptOutcome)
        requires
            key_wf(self.master_key@),
            0 < self.chunk_size <= 0xFFFFFFEF,
            strip_ok(self.source_folder@, file_path@),
            vstd::utf8::encode_utf8(rel_of(self.source_folder@, file_path@)).len() < 0x3FFFFFFFC0,
        ensures
            r is Unchanged <==> (existing is Some && unchanged_check(
                existing->0,
                contents@,
                block_view(*current_block),
            )),
            r is Created <==> existing is None,
            !(r is Unchanged) ==> exists|dk: KeyView|
                #[trigger] written_record(
                    self.master_key@,
                    dk,
                    file_path@,
                    rel_of(self.source_folder@, file_path@),
                    contents@,
                    self.chunk_size as int,
                    outcome_file(r),
                    outcome_block(r),
                ),
    {
        let file_id = hash_string(file_path);
        match existing {
            Option::None => self.create_file(file_path, file_id, contents, observer),
            Option::Some(file) => self.update_file(
                file_path,
                file_id,
                file,
                contents,
                current_block,
                observer,
            ),
        }
    }

    /// The create path: a fresh record for a source file never seen before.
    fn create_file<O: EncryptionObserver>(
        &self,
        file_path: &str,
        file_id: String,
        contents: &Vec<u8>,
        observer: &mut O,
    ) -> (r: EncryptOutcome)
        requires
            key_wf(self.master_key@),
            0 < self.chunk_size <= 0xFFFFFFEF,
            strip_ok(self.source_folder@, file_path@),
            vstd::utf8::encode_utf8(rel_of(self.source_folder@, file_path@)).len() < 0x3FFFFFFFC0,
            file_id@ == file_id_of(file_path@),
        ensures
            r is Created,
            exists|dk: KeyView|
                #[trigger] written_record(
                    self.master_key@,
                    dk,
                    file_path@,
                    rel_of(self.source_folder@, file_path@),
                    contents@,
                    self.chunk_size as int,
                    outcome_file(r),
                    outcome_block(r),
                ),
    {
        let plain_hash = hash_bytes(contents.as_slice());
        let r = self.encrypt_internal(file_path, file_id, plain_hash, contents, false, observer);
        observer.end(EncryptionEndState::Done);
        r
    }

    /// The update path: skip when nothing changed, otherwise re-encrypt.
    fn update_file<O: EncryptionObserver>(
        &self,
        file_path: &str,
        file_id: String,
        file: &File,
        contents: &Vec<u8>,
        current_block: &Option<Vec<u8>>,
        observer: &mut O,
    ) -> (r: EncryptOutcome)
        requires
            key_wf(self.master_key@),
            0 < self.chunk_size <= 0xFFFFFFEF,
            strip_ok(self.source_folder@, file_path@),
            vstd::utf8::encode_utf8(rel_of(self.source_folder@, file_path@)).len() < 0x3FFFFFFFC0,
            file_id@ == file_id_of(file_path@),
        ensures
            r is Unchanged <==> unchanged_check(*file, contents@, block_view(*current_block)),
            !(r is Created),
            !(r is Unchanged) ==> exists|dk: KeyView|
                #[trigger] written_record(
                    self.master_key@,
                    dk,
                    file_path@,
                    rel_of(self.source_folder@, file_path@),
                    contents@,
                    self.chunk_size as int,
                    outcome_file(r),
                    outcome_block(r),
                ),
    {
        observer.update_state(EncryptionStates::PlainFileCheck);
        let current_hash = hash_bytes(contents.as_slice());
        if strings_equal(current_hash.as_str(), file.plain_hash.as_str()) {
            observer.update_state(EncryptionStates::EncryptedBlockCheck);
            if self.encrypted_file_unchanged(file, current_block) {
                observer.end(EncryptionEndState::Unchanged);
                return EncryptOutcome::Unchanged;
            }
        }
        let r = self.encrypt_internal(file_path, file_id, current_hash, contents, true, observer);
        observer.end(EncryptionEndState::Done);
        r
    }

    /// The skip test's second half: a block with the recorded digest is on
    /// disk.
    fn encrypted_file_unchanged(&self, file: &File, current_block: &Option<Vec<u8>>) -> (r: bool)
        ensures
            r == (block_view(*current_block) is Some && hash_hex_of(
                block_view(*current_block)->0,
            ) == file.encrypted_hash@),
    {
        match current_block {
            Option::Some(block) => {
                let current_hash = hash_bytes(block.as_slice());
                strings_equal(current_hash.as_str(), file.encrypted_hash.as_str())
            },
            Option::None => false,
        }
    }

    /// Encrypts the contents under a fresh data key and assembles the record.
    fn encrypt_internal<O: EncryptionObserver>(
        &self,
        file_path: &str,
        file_id: String,
        plain_hash: String,
        contents: &Vec<u8>,
        updating: bool,
        observer: &mut O,
    ) -> (r: EncryptOutcome)
        requires
            key_wf(self.master_key@),
            0 < self.chunk_size <= 0xFFFFFFEF,
            strip_ok(self.source_folder@, file_path@),
            vstd::utf8::encode_utf8(rel_of(self.source_folder@, file_path@)).len() < 0x3FFFFFFFC0,
            file_id@ == file_id_of(file_path@),
            plain_hash@ == hash_hex_of(contents@),
        ensures
            r is Updated <==> updating,
            r is Created <==> !updating,
            exists|dk: KeyView|
                #[trigger] written_record(
                    self.master_key@,
                    dk,
                    file_path@,
                    rel_of(self.source_folder@, file_path@),
                    contents@,
                    self.chunk_size as int,
                    outcome_file(r),
                    outcome_block(r),
                ),
    {
        let file_key = Key::new();
        let file_encryptor = CCFileEncryptor::from(&file_key, self.chunk_size);
        let source_copy = crate::util::copy_bytes(contents);
        let block = file_encryptor.encrypt(source_copy, observer);
        let encrypted_hash = hash_bytes(block.as_slice());
        let key_encryptor = KeyEncryptor::from(self.master_key);
        let encrypted_key = key_encryptor.encrypt(&file_key);
        let stripped_path = self.strip_source(file_path);
        let encrypted_file_path = Self::encrypt_filepath(&file_key, stripped_path.as_str());
        let file = File {
            id: file_id,
            plain_hash,
            encrypted_hash,
            key: encrypted_key,
            file_path: encrypted_file_path,
        };
        let r = if updating {
            EncryptOutcome::Updated(file, block)
        } else {
            EncryptOutcome::Created(file, block)
        };
        proof {
            assert(written_record(
                self.master_key@,
                file_key@,
                file_path@,
                rel_of(self.source_folder@, file_path@),
                contents@,
                self.chunk_size as int,
                outcome_file(r),
                outcome_block(r),
            ));
        }
        r
    }

    /// The source-relative part of a path under the source root.
    pub fn strip_source(&self, file_path: &str) -> (r: String)
        requires
            strip_ok(self.source_folder@, file_path@),
        ensures
            r@ == rel_of(self.source_folder@, file_path@),
    {
        let sl = self.source_folder.unicode_len();
        let n = file_path.unicode_len();
        file_path.substring_char(sl + 1, n).to_owned()
    }

    /// Encrypts a relative path under the data key and hex-encodes it.
    fn encrypt_filepath(key: &Key, rel_path: &str) -> (r: String)
        requires
            key_wf(key@),
            vstd::utf8::encode_utf8(rel_path@).len() < 0x3FFFFFFFC0,
        ensures
            path_cipher_ok(key@, rel_path@, r@),
    {
        let mut vec = rel_path.as_bytes_vec();
        let encryptor = ByteEncryptorImpl::from(key);
        encryptor.encrypt(&mut vec);
        crate::codecs::encode_vec(vec)
    }
}

/// Restores capsule records and blocks into destination files.
pub struct HelixFileDecryptor<'a> {
    pub destination: &'a str,
    pub master_key: &'a Key,
}

impl<'a> HelixFileDecryptor<'a> {
    /// Binds the decryptor to the destination root and the master key.
    pub fn from(destination: &'a str, master_key: &'a Key) -> (r: Self)
        ensures
            r.destination@ == destination@,
            r.master_key@ == master_key@,
    {
        HelixFileDecryptor { destination, master_key }
    }

    /// Restores one record: unwraps its data key, recovers the relative
    /// path, checks the block's digest, and decrypts the block.
    ///
    /// A record or key blob this capsule's key cannot unwrap is a fatal
    /// error; a missing or corrupted block is a per-file outcome and the
    /// caller's walk continues. The final clause is the round trip: what a
    /// pass wrote comes back at the written relative path with the written
    /// contents.
    pub fn decrypt<O: DecryptionObserver>(
        &self,
        file: &File,
        block_on_disk: &Option<Vec<u8>>,
        observer: &mut O,
    ) -> (r: Result<DecryptOutcome, HelixError>)
        requires
            key_wf(self.master_key@),
        ensures
            (!exists|dk: KeyView| #[trigger] wraps(self.master_key@, dk, file.key@)) ==> r is Err,
            forall|dk: KeyView, rel: Seq<char>|
                (#[trigger] wraps(self.master_key@, dk, file.key@) && #[trigger] path_cipher_ok(
                    dk,
                    rel,
                    file.file_path@,
                )) ==> {
                    &&& (block_view(*block_on_disk) is None ==> r is Ok
                        && r->Ok_0 is BlockNotFound)
                    &&& ((block_view(*block_on_disk) is Some && hash_hex_of(
                        block_view(*block_on_disk)->0,
                    ) != file.encrypted_hash@) ==> r is Ok && r->Ok_0 is MalformedBlock)
                    &&& ((block_view(*block_on_disk) is Some && hash_hex_of(
                        block_view(*block_on_disk)->0,
                    ) == file.encrypted_hash@) ==> {
                        ||| (r is Ok && r->Ok_0 is Done && Some(r->Ok_0->Done_1@)
                            == block_plain_of(dk, block_view(*block_on_disk)->0)
                            && r->Ok_0->Done_0@ == dest_path_of(self.destination@, rel))
                        ||| (r is Err && block_plain_of(dk, block_view(*block_on_disk)->0)
                            is None)
                    })
                },
            forall|dk: KeyView, rel: Seq<char>, contents: Seq<u8>, cap: int|
                (block_view(*block_on_disk) is Some && #[trigger] record_matches(
                    self.master_key@,
                    dk,
                    rel,
                    contents,
                    cap,
                    *file,
                    block_view(*block_on_disk)->0,
                )) ==> r is Ok && r->Ok_0 is Done && r->Ok_0->Done_0@ == dest_path_of(
                    self.destination@,
                    rel,
                ) && r->Ok_0->Done_1@ == contents,
            r is Err ==> r->Err_0.code@ == "MalformedCapsule"@,
    {
        let key_decryptor = KeyDecryptor::from(self.master_key);
        let key = match key_decryptor.decrypt(file.key.as_str()) {
            Ok(k) => k,
            Err(e) => {
                return Err(e);
            },
        };
        let plain_file_path = match Self::decrypt_filepath(&key, file.file_path.as_str()) {
            Ok(p) => p,
            Err(e) => {
                return Err(e);
            },
        };
        let complete_path = self.append_destination(plain_file_path);
        observer.update_state(DecryptionStates::EncryptedBlockCheck);
        match block_on_disk {
            Option::None => {
                observer.end(DecryptionEndState::BlockNotFound);
                Ok(DecryptOutcome::BlockNotFound)
            },
            Option::Some(block) => {
                let current_hash = hash_bytes(block.as_slice());
                if !strings_equal(current_hash.as_str(), file.encrypted_hash.as_str()) {
                    observer.end(DecryptionEndState::MalformedBlock);
                    return Ok(DecryptOutcome::MalformedBlock);
                }
                observer.init_size(block.len() as u64);
                let file_decryptor = CCFileDecryptor::from(&key);
                let block_copy = crate::util::copy_bytes(block);
                match file_decryptor.decrypt(block_copy, observer) {
                    Ok(plain) => {
                        observer.end(DecryptionEndState::Done);
                        Ok(DecryptOutcome::Done(complete_path, plain))
                    },
                    Err(e) => {
                        // The digest matched, yet the block does not decode:
                        // the record itself is inconsistent, which is fatal.
                        Err(
                            HelixError {
                                code: "MalformedCapsule".to_owned(),
                                detailed_code: e.detailed_code,
                                message: e.message,
                            },
                        )
                    },
                }
            },
        }
    }

    /// Decrypts and decodes a record's stored relative path.
    fn decrypt_filepath(key: &Key, file_path: &str) -> (r: Result<String, HelixError>)
        requires
            key_wf(key@),
        ensures
            forall|rel: Seq<char>|
                #[trigger] path_cipher_ok(key@, rel, file_path@) ==> r is Ok && r->Ok_0@ == rel,
            r is Err ==> r->Err_0.code@ == "MalformedCapsule"@,
    {
        if !crate::codecs::is_hex(file_path) {
            proof {
                lemma_path_cipher_is_hex(key@, file_path@);
            }
            return Err(malformed_path());
        }
        let mut decoded = crate::codecs::decode_vec(file_path.to_owned());
        let ghost cipher = decoded@;
        let byte_decryptor = ByteDecryptorImpl::from(key);
        match byte_decryptor.decrypt(&mut decoded) {
            Ok(_) => {},
            Err(e) => {
                proof {
                    assert forall|rel: Seq<char>|
                        !(#[trigger] path_cipher_ok(key@, rel, file_path@)) by {
                        if path_cipher_ok(key@, rel, file_path@) {
                            crate::codecs::lemma_hex_round_trip(
                                aead_cipher_of(key@.k, key@.n, vstd::utf8::encode_utf8(rel)),
                            );
                        }
                    }
                }
                return Err(e);
            },
        }
        match bytes_to_string(decoded) {
            Ok(s) => {
                proof {
                    assert forall|rel: Seq<char>|
                        #[trigger] path_cipher_ok(key@, rel, file_path@) implies s@ == rel by {
                        crate::codecs::lemma_hex_round_trip(
                            aead_cipher_of(key@.k, key@.n, vstd::utf8::encode_utf8(rel)),
                        );
                        vstd::utf8::decode_utf8_encode_utf8(vstd::utf8::encode_utf8(rel));
                        vstd::utf8::encode_utf8_decode_utf8(rel);
                    }
                }
                Ok(s)
            },
            Err(_) => {
                proof {
                    assert forall|rel: Seq<char>|
                        !(#[trigger] path_cipher_ok(key@, rel, file_path@)) by {
                        if path_cipher_ok(key@, rel, file_path@) {
                            crate::codecs::lemma_hex_round_trip(
                                aead_cipher_of(key@.k, key@.n, vstd::utf8::encode_utf8(rel)),
                            );
                            vstd::utf8::encode_utf8_valid_utf8(rel);
                        }
                    }
                }
                Err(malformed_path())
            },
        }
    }

    /// Composes the destination path of a restored file.
    fn append_destination(&self, plain_file_path: String) -> (r: String)
        ensures
            r@ == dest_path_of(self.destination@, plain_file_path@),
    {
        let mut out = self.destination.to_owned();
        out.append("/");
        out.append(plain_file_path.as_str());
        out
    }
}

/// A stored relative path that no well-formed data key explains is a data
/// error: its hexadecimal text never came from this capsule's encryptor.
proof fn lemma_path_cipher_is_hex(dk: KeyView, text: Seq<char>)
    requires
        !crate::codecs::is_hex_seq(text),
    ensures
        forall|rel: Seq<char>| !(#[trigger] path_cipher_ok(dk, rel, text)),
{
    assert forall|rel: Seq<char>| !(#[trigger] path_cipher_ok(dk, rel, text)) by {
        if path_cipher_ok(dk, rel, text) {
            crate::codecs::lemma_hex_chars_are_hex(
                aead_cipher_of(dk.k, dk.n, vstd::utf8::encode_utf8(rel)),
            );
        }
    }
}

/// The error reported for a stored path that is not this capsule's.
fn malformed_path() -> (r: HelixError)
    ensures
        r.code@ == "MalformedCapsule"@,
{
    HelixError::from(
        "MalformedCapsule",
        "MalformedFilePath",
        "Stored file path is not an encrypted path of this capsule.",
    )
}

} // verus!
