//! Passphrase-protected, content-addressed encrypted backup core.
//!
//! A source tree is encrypted file by file into an opaque block store; a
//! metadata store maps each file id to the wrapped data key, the plaintext
//! digest, the block digest and the encrypted relative path. This crate holds
//! the verified core: the hex codec, the AEAD byte and key envelopes, the
//! chunked block format, the per-file encryption and decryption drivers and
//! the master-key logic. The shell around it supplies the file system, the
//! database rows and the terminal.

pub mod capsule;
pub mod codecs;
pub mod crypto;
pub mod errors;
pub mod filecrypto;
pub mod fileio;
pub mod files;
pub mod folder_walker;
pub mod master_key;
pub mod observers;
pub mod storage;
pub mod util;
