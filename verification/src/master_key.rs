//! The master-key manager: binding a passphrase to the capsule's master key.
//!
//! The passphrase digest is stored in clear beside the wrapped master key.
//! The passphrase key that wraps the master key is derived deterministically:
//! its seed is the digest of the passphrase concatenated with the
//! passphrase's own digest text, so the seed differs from the stored digest.

use vstd::prelude::*;
use crate::crypto::chacha::{
    key_wf, seeded_key_of, seeded_nonce_of, Key, KeyView,
};
use crate::crypto::envelope::{wraps, KeyDecryptor, KeyEncryptor};
use crate::errors::HelixError;
use crate::storage::MasterKey;
use crate::util::{decode, hash_string, lemma_hash_hex_decodes, sha256_of, string_hash_hex_of};

verus! {

/// The digest text stored for a passphrase.
pub open spec fn passphrase_digest_of(pass: Seq<char>) -> Seq<char> {
    string_hash_hex_of(pass)
}

/// The 32-byte seed of the passphrase key: the digest of the passphrase
/// followed by its own digest text.
pub open spec fn passphrase_seed_of(pass: Seq<char>) -> Seq<u8> {
    sha256_of(vstd::utf8::encode_utf8(pass + passphrase_digest_of(pass)))
}

/// The passphrase key: derived deterministically from the seed, nonce from
/// the reversed seed.
pub open spec fn passphrase_key_of(pass: Seq<char>) -> KeyView {
    KeyView {
        k: seeded_key_of(passphrase_seed_of(pass)),
        n: seeded_nonce_of(passphrase_seed_of(pass).reverse()),
    }
}

/// Derives the master key of a capsule from its passphrase, and wraps a fresh
/// one on first use.
pub struct MasterKeyManager;

impl MasterKeyManager {
    /// Generates a fresh master key for a new capsule: returns the key in
    /// clear together with the row to store, which holds the passphrase
    /// digest and the master key wrapped under the passphrase key.
    pub fn generate(passphrase: &str) -> (r: (Key, MasterKey))
        ensures
            key_wf(r.0@),
            r.1.passphrase_digest@ == passphrase_digest_of(passphrase@),
            wraps(passphrase_key_of(passphrase@), r.0@, r.1.master_key@),
    {
        let passphrase_digest = hash_string(passphrase);
        let passphrase_key = Self::get_passphrase_key(passphrase, &passphrase_digest);
        let key_encryptor = KeyEncryptor::from(&passphrase_key);
        let master_key_plain = Key::new();
        let master_key = key_encryptor.encrypt(&master_key_plain);
        (master_key_plain, MasterKey { passphrase_digest, master_key })
    }

    /// Recovers the master key from the stored row under a passphrase.
    ///
    /// With no row stored there is no master key yet. A row whose digest does
    /// not match the passphrase is rejected before any unwrapping; a matching
    /// row whose blob is not a wrapped key is a malformed capsule.
    pub fn get(passphrase: &str, stored: &Option<MasterKey>) -> (r: Result<
        Option<Key>,
        HelixError,
    >)
        ensures
            stored is None <==> r is Ok && r->Ok_0 is None,
            stored matches Some(row) && row.passphrase_digest@ != passphrase_digest_of(
                passphrase@,
            ) ==> r is Err && r->Err_0.detailed_code@ == "PassphraseMismatch"@,
            r is Ok && r->Ok_0 is Some ==> (stored matches Some(row)
                && row.passphrase_digest@ == passphrase_digest_of(passphrase@) && wraps(
                passphrase_key_of(passphrase@),
                r->Ok_0->Some_0@,
                row.master_key@,
            )),
            forall|k: KeyView|
                (stored is Some && stored->Some_0.passphrase_digest@ == passphrase_digest_of(
                    passphrase@,
                ) && #[trigger] wraps(
                    passphrase_key_of(passphrase@),
                    k,
                    stored->Some_0.master_key@,
                )) ==> r is Ok && r->Ok_0 is Some && r->Ok_0->Some_0@ == k,
            r is Err && r->Err_0.detailed_code@ != "PassphraseMismatch"@ ==> r->Err_0.code@
                == "MalformedCapsule"@,
    {
        let passphrase_digest = hash_string(passphrase);
        match stored {
            Option::Some(row) => {
                if !strings_equal(&row.passphrase_digest, &passphrase_digest) {
                    return Err(
                        HelixError::from(
                            "BadInput",
                            "PassphraseMismatch",
                            "Provided passphrase does not match the passphrase of this capsule.",
                        ),
                    );
                }
                let key = Self::get_passphrase_key(passphrase, &passphrase_digest);
                let key_decryptor = KeyDecryptor::from(&key);
                match key_decryptor.decrypt(row.master_key.as_str()) {
                    Ok(decrypted) => Ok(Some(decrypted)),
                    Err(e) => Err(e),
                }
            },
            Option::None => Ok(None),
        }
    }

    /// Derives the passphrase key from the passphrase and its digest text.
    fn get_passphrase_key(passphrase: &str, passphrase_digest: &str) -> (r: Key)
        requires
            passphrase_digest@ == passphrase_digest_of(passphrase@),
        ensures
            key_wf(r@),
            r@ == passphrase_key_of(passphrase@),
    {
        let mut final_digest_str = passphrase.to_owned();
        final_digest_str.append(passphrase_digest);
        let final_digest = Self::get_hash_bytes(final_digest_str.as_str());
        Key::from_seed(&final_digest)
    }

    /// The raw 32 digest bytes of a string.
    fn get_hash_bytes(data: &str) -> (r: Vec<u8>)
        ensures
            r@ == sha256_of(vstd::utf8::encode_utf8(data@)),
            r@.len() == 32,
    {
        let digest = hash_string(data);
        let mut digest_bytes: Vec<u8> = Vec::new();
        let mut i: usize = 0;
        while i < 32
            invariant
                i <= 32,
                digest_bytes@.len() == i,
            decreases 32 - i,
        {
            digest_bytes.push(0);
            i = i + 1;
        }
        proof {
            lemma_hash_hex_decodes(vstd::utf8::encode_utf8(data@));
        }
        decode(digest, &mut digest_bytes);
        digest_bytes
    }
}

/// Compares two strings character by character.
pub fn strings_equal(a: &str, b: &str) -> (r: bool)
    ensures
        r <==> a@ == b@,
{
    let n = a.unicode_len();
    let m = b.unicode_len();
    if n != m {
        proof {
            assert(a@.len() != b@.len());
        }
        return false;
    }
    let mut i: usize = 0;
    while i < n
        invariant
            i <= n,
            n == a@.len(),
            n == b@.len(),
            forall|j: int| 0 <= j < i ==> a@[j] == b@[j],
        decreases n - i,
    {
        if a.get_char(i) != b.get_char(i) {
            return false;
        }
        i = i + 1;
    }
    proof {
        assert(a@ =~= b@);
    }
    true
}

} // verus!
