//! The key envelope: one key serialized under another.
//!
//! A child key is stored as a small text blob
//! `{"key":"<hex>","nonce":"<hex>"}`: the child's 32 key bytes are encrypted
//! under the parent key and hex-encoded (96 digits), and the child's 12-byte
//! nonce is hex-encoded in clear (24 digits). The blob's length is therefore
//! fixed at 141 characters, and `wrapped_text_of` pins it down exactly.

use vstd::prelude::*;
use crate::codecs::{
    decode_vec, encode_vec, hex_bytes_of, hex_char_of, hex_chars_of, hex_val, is_hex_seq,
    lemma_hex_round_trip,
};
use crate::crypto::chacha::{
    aead_cipher_of, key_wf, Key, KeyView, ByteDecryptorImpl, ByteEncryptorImpl,
};
use crate::crypto::{ByteDecryptor, ByteEncryptor};
use crate::errors::HelixError;

verus! {

/// The two hexadecimal fields of a wrapped key, as text.
pub struct StorableKey {
    pub key: String,
    pub nonce: String,
}

/// The text blob that wrapping `child` under `parent` produces.
pub open spec fn wrapped_text_of(parent: KeyView, child: KeyView) -> Seq<char> {
    "{\"key\":\""@ + hex_chars_of(aead_cipher_of(parent.k, parent.n, child.k))
        + "\",\"nonce\":\""@ + hex_chars_of(child.n) + "\"}"@
}

/// `text` is the envelope of the well-formed key `child` under `parent`.
///
/// The cipher length conjunct records what every encryption call establishes:
/// the ciphertext is the 32 key bytes plus the 16-byte tag.
pub open spec fn wraps(parent: KeyView, child: KeyView, text: Seq<char>) -> bool {
    &&& key_wf(child)
    &&& aead_cipher_of(parent.k, parent.n, child.k).len() == 48
    &&& text == wrapped_text_of(parent, child)
}

/// True of the lowercase hexadecimal digits, the only digits the envelope
/// writes.
pub open spec fn is_lower_hex_digit(c: char) -> bool {
    (48 <= c as u32 && c as u32 <= 57) || (97 <= c as u32 && c as u32 <= 102)
}

/// True of text made of lowercase digit pairs.
pub open spec fn is_lower_hex_seq(s: Seq<char>) -> bool {
    s.len() % 2 == 0 && forall|i: int| 0 <= i < s.len() ==> is_lower_hex_digit(#[trigger] s[i])
}

/// Encoding writes lowercase digits only.
pub proof fn lemma_hex_chars_are_lower(bytes: Seq<u8>)
    ensures
        is_lower_hex_seq(hex_chars_of(bytes)),
{
    assert forall|i: int| 0 <= i < hex_chars_of(bytes).len() implies is_lower_hex_digit(
        #[trigger] hex_chars_of(bytes)[i],
    ) by {
        let b = bytes[i / 2];
        assert(b / 16 < 16 && b % 16 < 16) by (nonlinear_arith);
    }
}

/// Lowercase hexadecimal text is canonical: re-encoding its decoding gives
/// the text back.
pub proof fn lemma_lower_hex_canonical(s: Seq<char>)
    requires
        is_lower_hex_seq(s),
    ensures
        hex_chars_of(hex_bytes_of(s)) =~= s,
{
    let t = hex_chars_of(hex_bytes_of(s));
    assert(t.len() == s.len());
    assert forall|i: int| 0 <= i < s.len() implies t[i] == s[i] by {
        let b = hex_bytes_of(s)[i / 2];
        let hi = hex_val(s[2 * (i / 2)]);
        let lo = hex_val(s[2 * (i / 2) + 1]);
        assert(hi < 16 && lo < 16);
        assert(b == hi * 16 + lo);
        assert(b / 16 == hi && b % 16 == lo) by (nonlinear_arith)
            requires
                hi < 16,
                lo < 16,
                b == hi * 16 + lo,
        ;
        if i % 2 == 0 {
            assert(i == 2 * (i / 2));
            assert(t[i] == hex_char_of(hi));
            assert(hex_char_of(hex_val(s[i])) == s[i]) by {
                vstd::utf8::char_u32_cast(s[i], s[i] as u32);
            }
        } else {
            assert(i == 2 * (i / 2) + 1);
            assert(t[i] == hex_char_of(lo));
            assert(hex_char_of(hex_val(s[i])) == s[i]) by {
                vstd::utf8::char_u32_cast(s[i], s[i] as u32);
            }
        }
    }
}

/// Lowercase hexadecimal text is decodable.
pub proof fn lemma_lower_hex_is_hex(s: Seq<char>)
    requires
        is_lower_hex_seq(s),
    ensures
        is_hex_seq(s),
{
}

/// The fixed shape of the envelope of a well-formed child: 141 characters,
/// the delimiters at fixed offsets, both fields lowercase digit runs.
pub proof fn lemma_wrapped_shape(parent: KeyView, child: KeyView)
    requires
        key_wf(child),
        aead_cipher_of(parent.k, parent.n, child.k).len() == 48,
    ensures
        wrapped_text_of(parent, child).len() == 141,
        wrapped_text_of(parent, child).subrange(0, 8) =~= "{\"key\":\""@,
        wrapped_text_of(parent, child).subrange(8, 104) =~= hex_chars_of(
            aead_cipher_of(parent.k, parent.n, child.k),
        ),
        wrapped_text_of(parent, child).subrange(104, 115) =~= "\",\"nonce\":\""@,
        wrapped_text_of(parent, child).subrange(115, 139) =~= hex_chars_of(child.n),
        wrapped_text_of(parent, child).subrange(139, 141) =~= "\"}"@,
        is_lower_hex_seq(wrapped_text_of(parent, child).subrange(8, 104)),
        is_lower_hex_seq(wrapped_text_of(parent, child).subrange(115, 139)),
{
    reveal_strlit("{\"key\":\"");
    reveal_strlit("\",\"nonce\":\"");
    reveal_strlit("\"}");
    lemma_hex_chars_are_lower(aead_cipher_of(parent.k, parent.n, child.k));
    lemma_hex_chars_are_lower(child.n);
    assert(is_lower_hex_seq(wrapped_text_of(parent, child).subrange(8, 104))) by {
        assert(wrapped_text_of(parent, child).subrange(8, 104) =~= hex_chars_of(
            aead_cipher_of(parent.k, parent.n, child.k),
        ));
    }
    assert(is_lower_hex_seq(wrapped_text_of(parent, child).subrange(115, 139))) by {
        assert(wrapped_text_of(parent, child).subrange(115, 139) =~= hex_chars_of(child.n));
    }
}

/// Reports whether `pat` occurs in `s` at position `pos`.
fn matches_at(s: &str, pos: usize, pat: &str) -> (b: bool)
    requires
        pos + pat@.len() <= s@.len(),
        s@.len() <= usize::MAX,
    ensures
        b <==> s@.subrange(pos as int, pos as int + pat@.len() as int) =~= pat@,
{
    let m = pat.unicode_len();
    let mut i: usize = 0;
    while i < m
        invariant
            i <= m,
            m == pat@.len(),
            pos + m <= s@.len(),
            s@.len() <= usize::MAX,
            forall|j: int| 0 <= j < i ==> s@[pos + j] == pat@[j],
        decreases m - i,
    {
        if s.get_char(pos + i) != pat.get_char(i) {
            proof {
                assert(s@.subrange(pos as int, pos as int + m as int)[i as int] != pat@[i as int]);
            }
            return false;
        }
        i = i + 1;
    }
    proof {
        assert(s@.subrange(pos as int, pos as int + m as int) =~= pat@);
    }
    true
}

/// Reports whether the characters of `s` in `[from, to)` are an even-length
/// run of lowercase hexadecimal digits.
fn is_lower_hex_range(s: &str, from: usize, to: usize) -> (b: bool)
    requires
        from <= to <= s@.len(),
    ensures
        b == is_lower_hex_seq(s@.subrange(from as int, to as int)),
{
    if (to - from) % 2 != 0 {
        return false;
    }
    let mut i: usize = from;
    while i < to
        invariant
            from <= i <= to <= s@.len(),
            (to - from) % 2 == 0,
            forall|j: int|
                0 <= j < i - from ==> is_lower_hex_digit(
                    #[trigger] s@.subrange(from as int, to as int)[j],
                ),
        decreases to - i,
    {
        let u = s.get_char(i) as u32;
        proof {
            assert(s@.subrange(from as int, to as int)[i - from] == s@[i as int]);
        }
        if !((48 <= u && u <= 57) || (97 <= u && u <= 102)) {
            return false;
        }
        i = i + 1;
    }
    true
}

/// Wraps a child key under a parent key, yielding the envelope text.
pub struct KeyEncryptor<'a> {
    pub byte_encryptor: ByteEncryptorImpl<'a>,
}

impl<'a> KeyEncryptor<'a> {
    /// Binds the envelope writer to its parent key.
    pub fn from(master_key: &'a Key) -> (r: Self)
        ensures
            r.byte_encryptor.key@ == master_key@,
    {
        let byte_encryptor = ByteEncryptorImpl::from(master_key);
        KeyEncryptor { byte_encryptor }
    }

    /// Serializes `key`, its key bytes encrypted under the parent key.
    pub fn encrypt(&self, key: &Key) -> (r: String)
        requires
            key_wf(self.byte_encryptor.key@),
            key_wf(key@),
        ensures
            wraps(self.byte_encryptor.key@, key@, r@),
    {
        let nonce_string = encode_slice(key.nonce.as_slice());
        let mut vec = crate::util::copy_bytes(&key.key);
        self.byte_encryptor.encrypt(&mut vec);
        let key_string = encode_vec(vec);
        let storable = StorableKey { key: key_string, nonce: nonce_string };
        let mut out = String::new();
        out.append("{\"key\":\"");
        out.append(storable.key.as_str());
        out.append("\",\"nonce\":\"");
        out.append(storable.nonce.as_str());
        out.append("\"}");
        proof {
            assert(out@ =~= wrapped_text_of(self.byte_encryptor.key@, key@));
        }
        out
    }
}

/// Encodes a byte slice as lowercase hexadecimal text.
fn encode_slice(data: &[u8]) -> (r: String)
    ensures
        r@ == hex_chars_of(data@),
{
    crate::codecs::encode(data)
}

/// Unwraps envelope text back into a child key under a parent key.
pub struct KeyDecryptor<'a> {
    pub byte_decryptor: ByteDecryptorImpl<'a>,
}

impl<'a> KeyDecryptor<'a> {
    /// Binds the envelope reader to its parent key.
    pub fn from(master_key: &'a Key) -> (r: Self)
        ensures
            r.byte_decryptor.key@ == master_key@,
    {
        let byte_decryptor = ByteDecryptorImpl::from(master_key);
        KeyDecryptor { byte_decryptor }
    }

    /// Parses and decrypts envelope text.
    ///
    /// Succeeds exactly on the blobs that wrapping a well-formed key under
    /// this parent key writes, and then returns that key.
    pub fn decrypt(&self, key_string: &str) -> (r: Result<Key, HelixError>)
        requires
            key_wf(self.byte_decryptor.key@),
        ensures
            r is Ok ==> wraps(self.byte_decryptor.key@, r->Ok_0@, key_string@),
            forall|child: KeyView|
                #[trigger] wraps(self.byte_decryptor.key@, child, key_string@) ==> r is Ok
                    && r->Ok_0@ == child,
            r is Err ==> r->Err_0.code@ == "MalformedCapsule"@,
    {
        let ghost parent = self.byte_decryptor.key@;
        let ghost s = key_string@;
        proof {
            reveal_strlit("{\"key\":\"");
            reveal_strlit("\",\"nonce\":\"");
            reveal_strlit("\"}");
        }
        let n = key_string.unicode_len();
        if n != 141 {
            proof {
                assert forall|child: KeyView| !wraps(parent, child, s) by {
                    if wraps(parent, child, s) {
                        lemma_wrapped_shape(parent, child);
                    }
                }
            }
            return Err(malformed_wrapped_key());
        }
        if !matches_at(key_string, 0, "{\"key\":\"") {
            proof {
                assert forall|child: KeyView| !wraps(parent, child, s) by {
                    if wraps(parent, child, s) {
                        lemma_wrapped_shape(parent, child);
                    }
                }
            }
            return Err(malformed_wrapped_key());
        }
        if !matches_at(key_string, 104, "\",\"nonce\":\"") {
            proof {
                assert forall|child: KeyView| !wraps(parent, child, s) by {
                    if wraps(parent, child, s) {
                        lemma_wrapped_shape(parent, child);
                    }
                }
            }
            return Err(malformed_wrapped_key());
        }
        if !matches_at(key_string, 139, "\"}") {
            proof {
                assert forall|child: KeyView| !wraps(parent, child, s) by {
                    if wraps(parent, child, s) {
                        lemma_wrapped_shape(parent, child);
                    }
                }
            }
            return Err(malformed_wrapped_key());
        }
        if !is_lower_hex_range(key_string, 8, 104) {
            proof {
                assert forall|child: KeyView| !wraps(parent, child, s) by {
                    if wraps(parent, child, s) {
                        lemma_wrapped_shape(parent, child);
                    }
                }
            }
            return Err(malformed_wrapped_key());
        }
        if !is_lower_hex_range(key_string, 115, 139) {
            proof {
                assert forall|child: KeyView| !wraps(parent, child, s) by {
                    if wraps(parent, child, s) {
                        lemma_wrapped_shape(parent, child);
                    }
                }
            }
            return Err(malformed_wrapped_key());
        }
        let storable = StorableKey {
            key: key_string.substring_char(8, 104).to_owned(),
            nonce: key_string.substring_char(115, 139).to_owned(),
        };
        let ghost key_hex = storable.key@;
        let ghost nonce_hex = storable.nonce@;
        proof {
            lemma_lower_hex_is_hex(key_hex);
            lemma_lower_hex_is_hex(nonce_hex);
        }
        let mut cipher = decode_vec(storable.key);
        let ghost cipher_bytes = cipher@;
        let nonce = decode_vec(storable.nonce);
        match self.byte_decryptor.decrypt(&mut cipher) {
            Ok(_) => {},
            Err(e) => {
                proof {
                    assert forall|child: KeyView| !wraps(parent, child, s) by {
                        if wraps(parent, child, s) {
                            lemma_wrapped_shape(parent, child);
                            assert(key_hex =~= hex_chars_of(
                                aead_cipher_of(parent.k, parent.n, child.k),
                            ));
                            lemma_hex_round_trip(aead_cipher_of(parent.k, parent.n, child.k));
                            assert(cipher_bytes == aead_cipher_of(parent.k, parent.n, child.k));
                        }
                    }
                }
                return Err(e);
            },
        }
        let child = Key { key: cipher, nonce };
        proof {
            lemma_lower_hex_canonical(key_hex);
            lemma_lower_hex_canonical(nonce_hex);
            lemma_hex_round_trip(child@.n);
            assert(s =~= s.subrange(0, 8) + s.subrange(8, 104) + s.subrange(104, 115) + s.subrange(
                115,
                139,
            ) + s.subrange(139, 141));
            assert(s =~= wrapped_text_of(parent, child@));
            assert(wraps(parent, child@, s));
            assert forall|other: KeyView|
                #[trigger] wraps(parent, other, s) implies child@ == other by {
                lemma_wrapped_shape(parent, other);
                assert(key_hex =~= hex_chars_of(aead_cipher_of(parent.k, parent.n, other.k)));
                lemma_hex_round_trip(aead_cipher_of(parent.k, parent.n, other.k));
                assert(cipher_bytes == aead_cipher_of(parent.k, parent.n, other.k));
                assert(child@.k == other.k);
                assert(nonce_hex =~= hex_chars_of(other.n));
                lemma_hex_round_trip(other.n);
                assert(child@.n == other.n);
            }
        }
        Ok(child)
    }
}

/// The error reported for a blob that is not a wrapped key of this capsule.
fn malformed_wrapped_key() -> (r: HelixError)
    ensures
        r.code@ == "MalformedCapsule"@,
{
    HelixError::from(
        "MalformedCapsule",
        "MalformedWrappedKey",
        "Stored key text is not a wrapped key of this capsule.",
    )
}

} // verus!
