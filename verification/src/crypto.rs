//! Byte-level authenticated encryption: the capability traits and, in the
//! submodule, their ChaCha20-Poly1305 implementation.

use vstd::prelude::*;
use crate::crypto::chacha::{aead_cipher_of, aead_plain_of, key_wf, KeyView};
use crate::errors::HelixError;

pub mod chacha;
pub mod envelope;

verus! {

/// Encrypts a byte buffer in place under a fixed key and nonce, appending the
/// 16-byte authentication tag.
///
/// The cipher refuses messages of `64 * (2^32 - 1)` bytes or more, hence the
/// length bound.
pub trait ByteEncryptor {
    /// The key and nonce this encryptor applies.
    spec fn key(&self) -> KeyView;

    fn encrypt(&self, plain: &mut Vec<u8>)
        requires
            key_wf(self.key()),
            old(plain)@.len() < 0x3FFFFFFFC0,
        ensures
            final(plain)@ == aead_cipher_of(self.key().k, self.key().n, old(plain)@),
            final(plain)@.len() == old(plain)@.len() + 16,
    ;
}

/// Decrypts a byte buffer in place under a fixed key and nonce, verifying the
/// trailing authentication tag.
///
/// On failure the buffer's contents are unspecified and must not be consumed.
pub trait ByteDecryptor {
    /// The key and nonce this decryptor applies.
    spec fn key(&self) -> KeyView;

    fn decrypt(&self, cipher: &mut Vec<u8>) -> (r: Result<(), HelixError>)
        requires
            key_wf(self.key()),
        ensures
            r is Ok <==> aead_plain_of(self.key().k, self.key().n, old(cipher)@) is Some,
            r is Ok ==> Some(final(cipher)@) == aead_plain_of(
                self.key().k,
                self.key().n,
                old(cipher)@,
            ),
            r is Ok ==> old(cipher)@ == aead_cipher_of(self.key().k, self.key().n, final(cipher)@)
                && old(cipher)@.len() == final(cipher)@.len() + 16,
            forall|p: Seq<u8>|
                old(cipher)@ == #[trigger] aead_cipher_of(self.key().k, self.key().n, p) ==> r is Ok
                    && final(cipher)@ == p,
            r is Err ==> r->Err_0.code@ == "MalformedCapsule"@ && r->Err_0.detailed_code@
                == "AuthenticationFailure"@,
    ;
}

} // verus!
