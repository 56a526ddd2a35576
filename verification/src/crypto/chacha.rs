//! ChaCha20-Poly1305 keys and in-place byte encryption.
//!
//! The cipher itself comes from the `chacha20poly1305` crate; its calls stand
//! behind the trusted wrappers below. What a call returns is given a name
//! (`aead_cipher_of`, `aead_plain_of`, `seeded_key_of`, `seeded_nonce_of`),
//! and everything above this module is verified against those names.

use vstd::prelude::*;
use chacha20poly1305::aead::generic_array::GenericArray;
use chacha20poly1305::aead::OsRng;
use chacha20poly1305::{AeadCore, AeadInPlace, ChaCha20Poly1305, KeyInit};
use rand::SeedableRng;
use crate::crypto::{ByteDecryptor, ByteEncryptor};
use crate::errors::HelixError;

verus! {

/// The mathematical content of a key: 32 key bytes and a 12-byte nonce.
pub ghost struct KeyView {
    pub k: Seq<u8>,
    pub n: Seq<u8>,
}

/// A well-formed key holds exactly 32 key bytes and 12 nonce bytes.
pub open spec fn key_wf(kv: KeyView) -> bool {
    kv.k.len() == 32 && kv.n.len() == 12
}

/// The ciphertext (plaintext plus 16-byte tag) that ChaCha20-Poly1305 produces
/// for a key, a nonce and a plaintext, with empty associated data.
pub uninterp spec fn aead_cipher_of(k: Seq<u8>, n: Seq<u8>, plain: Seq<u8>) -> Seq<u8>;

/// What ChaCha20-Poly1305 decryption returns for a key, a nonce and a
/// ciphertext: the plaintext, or nothing when the tag does not verify.
pub uninterp spec fn aead_plain_of(k: Seq<u8>, n: Seq<u8>, cipher: Seq<u8>) -> Option<Seq<u8>>;

/// The 32 bytes that a ChaCha20-Poly1305 key generator draws from a standard
/// generator seeded with the given 32-byte seed.
pub uninterp spec fn seeded_key_of(seed: Seq<u8>) -> Seq<u8>;

/// The 12 bytes that a ChaCha20-Poly1305 nonce generator draws from a standard
/// generator seeded with the given 32-byte seed.
pub uninterp spec fn seeded_nonce_of(seed: Seq<u8>) -> Seq<u8>;

/// Relies on `chacha20poly1305::ChaCha20Poly1305::encrypt_in_place` with empty
/// associated data: deterministic in key, nonce and plaintext; the buffer
/// grows by exactly the 16-byte tag. The cipher refuses messages of
/// `64 * (2^32 - 1)` bytes or more, so the length bound keeps the call total.
#[verifier::external_body]
fn aead_encrypt_raw(key: &Vec<u8>, nonce: &Vec<u8>, buffer: &mut Vec<u8>)
    requires
        key@.len() == 32,
        nonce@.len() == 12,
        old(buffer)@.len() < 0x3FFFFFFFC0,
    ensures
        final(buffer)@ == aead_cipher_of(key@, nonce@, old(buffer)@),
        final(buffer)@.len() == old(buffer)@.len() + 16,
{
    let cipher = ChaCha20Poly1305::new(GenericArray::from_slice(key.as_slice()));
    cipher
        .encrypt_in_place(GenericArray::from_slice(nonce.as_slice()), b"", buffer)
        .unwrap();
}

/// Relies on `chacha20poly1305::ChaCha20Poly1305::decrypt_in_place` with empty
/// associated data: deterministic in key, nonce and ciphertext; it succeeds on
/// every ciphertext that encryption under the same key and nonce produces, and
/// then returns that plaintext. Conversely, the cipher is a stream cipher with
/// a deterministic tag, so when decryption succeeds the buffer is exactly what
/// encrypting the returned plaintext produces.
#[verifier::external_body]
fn aead_decrypt_raw(key: &Vec<u8>, nonce: &Vec<u8>, buffer: Vec<u8>) -> (r: Result<Vec<u8>, ()>)
    requires
        key@.len() == 32,
        nonce@.len() == 12,
    ensures
        r is Ok <==> aead_plain_of(key@, nonce@, buffer@) is Some,
        r is Ok ==> Some(r->Ok_0@) == aead_plain_of(key@, nonce@, buffer@),
        r is Ok ==> buffer@ == aead_cipher_of(key@, nonce@, r->Ok_0@) && buffer@.len()
            == r->Ok_0@.len() + 16,
        forall|p: Seq<u8>|
            buffer@ == #[trigger] aead_cipher_of(key@, nonce@, p) ==> r is Ok && r->Ok_0@ == p,
{
    let mut buf = buffer;
    let cipher = ChaCha20Poly1305::new(GenericArray::from_slice(key.as_slice()));
    match cipher.decrypt_in_place(GenericArray::from_slice(nonce.as_slice()), b"", &mut buf) {
        Ok(()) => Ok(buf),
        Err(_) => Err(()),
    }
}

/// Relies on `chacha20poly1305::KeyInit::generate_key` over the operating
/// system's random source: 32 bytes, with nothing further promised.
#[verifier::external_body]
fn random_key_bytes() -> (r: Vec<u8>)
    ensures
        r@.len() == 32,
{
    ChaCha20Poly1305::generate_key(OsRng).to_vec()
}

/// Relies on `chacha20poly1305::AeadCore::generate_nonce` over the operating
/// system's random source: 12 bytes, with nothing further promised.
#[verifier::external_body]
fn random_nonce_bytes() -> (r: Vec<u8>)
    ensures
        r@.len() == 12,
{
    ChaCha20Poly1305::generate_nonce(OsRng).to_vec()
}

/// Relies on `rand::rngs::StdRng::from_seed` and
/// `chacha20poly1305::KeyInit::generate_key`: the generator is deterministic
/// in its seed, so the 32 bytes drawn are a function of the seed alone.
#[verifier::external_body]
fn seeded_key_bytes(seed: &Vec<u8>) -> (r: Vec<u8>)
    requires
        seed@.len() == 32,
    ensures
        r@ == seeded_key_of(seed@),
        r@.len() == 32,
{
    let mut s = [0u8; 32];
    s.copy_from_slice(seed.as_slice());
    let rng = rand::rngs::StdRng::from_seed(s);
    ChaCha20Poly1305::generate_key(rng).to_vec()
}

/// Relies on `rand::rngs::StdRng::from_seed` and
/// `chacha20poly1305::AeadCore::generate_nonce`: the generator is
/// deterministic in its seed, so the 12 bytes drawn are a function of the seed
/// alone.
#[verifier::external_body]
fn seeded_nonce_bytes(seed: &Vec<u8>) -> (r: Vec<u8>)
    requires
        seed@.len() == 32,
    ensures
        r@ == seeded_nonce_of(seed@),
        r@.len() == 12,
{
    let mut s = [0u8; 32];
    s.copy_from_slice(seed.as_slice());
    let rng = rand::rngs::StdRng::from_seed(s);
    ChaCha20Poly1305::generate_nonce(rng).to_vec()
}

/// A symmetric key: 32 key bytes and the 12-byte nonce used beside them.
///
/// Within one capsule a given key value encrypts at most one plaintext.
#[derive(Debug)]
pub struct Key {
    pub key: Vec<u8>,
    pub nonce: Vec<u8>,
}

impl View for Key {
    type V = KeyView;

    open spec fn view(&self) -> KeyView {
        KeyView { k: self.key@, n: self.nonce@ }
    }
}

impl Key {
    /// Draws a fresh key and nonce from the system's random source.
    pub fn new() -> (r: Key)
        ensures
            key_wf(r@),
    {
        Key { key: random_key_bytes(), nonce: random_nonce_bytes() }
    }

    /// Derives a key deterministically from a 32-byte seed: the key bytes from
    /// the seed itself, the nonce from the reversed seed. Equal seeds yield
    /// equal keys.
    pub fn from_seed(seed: &Vec<u8>) -> (r: Key)
        requires
            seed@.len() == 32,
        ensures
            key_wf(r@),
            r@.k == seeded_key_of(seed@),
            r@.n == seeded_nonce_of(seed@.reverse()),
    {
        let mut rev: Vec<u8> = Vec::new();
        let mut j: usize = 0;
        while j < 32
            invariant
                seed@.len() == 32,
                j <= 32,
                rev@ == seed@.reverse().take(j as int),
            decreases 32 - j,
        {
            rev.push(seed[31 - j]);
            proof {
                assert(rev@ =~= seed@.reverse().take(j + 1));
            }
            j = j + 1;
        }
        proof {
            assert(rev@ =~= seed@.reverse());
        }
        let key = seeded_key_bytes(seed);
        let nonce = seeded_nonce_bytes(&rev);
        Key { key, nonce }
    }
}

/// In-place byte encryption under one key.
pub struct ByteEncryptorImpl<'a> {
    pub key: &'a Key,
}

impl<'a> ByteEncryptorImpl<'a> {
    /// Binds an encryptor to a key.
    pub fn from(key: &'a Key) -> (r: Self)
        ensures
            r.key@ == key@,
    {
        ByteEncryptorImpl { key }
    }
}

impl ByteEncryptor for ByteEncryptorImpl<'_> {
    open spec fn key(&self) -> KeyView {
        self.key@
    }

    fn encrypt(&self, plain: &mut Vec<u8>) {
        aead_encrypt_raw(&self.key.key, &self.key.nonce, plain);
    }
}

/// In-place byte decryption under one key.
pub struct ByteDecryptorImpl<'a> {
    pub key: &'a Key,
}

impl<'a> ByteDecryptorImpl<'a> {
    /// Binds a decryptor to a key.
    pub fn from(key: &'a Key) -> (r: Self)
        ensures
            r.key@ == key@,
    {
        ByteDecryptorImpl { key }
    }
}

impl ByteDecryptor for ByteDecryptorImpl<'_> {
    open spec fn key(&self) -> KeyView {
        self.key@
    }

    fn decrypt(&self, cipher: &mut Vec<u8>) -> (r: Result<(), HelixError>) {
        let mut taken: Vec<u8> = Vec::new();
        core::mem::swap(&mut taken, cipher);
        match aead_decrypt_raw(&self.key.key, &self.key.nonce, taken) {
            Ok(plain) => {
                *cipher = plain;
                Ok(())
            },
            Err(_) => Err(
                HelixError::from(
                    "MalformedCapsule",
                    "AuthenticationFailure",
                    "Authentication tag did not verify during decryption.",
                ),
            ),
        }
    }
}

} // verus!
