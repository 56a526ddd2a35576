//! Digests and hexadecimal helpers.
//!
//! Every identity in the capsule is a SHA-256 digest rendered as lowercase
//! hexadecimal text: the file id (digest of the source path), the plaintext
//! digest, the block digest and the passphrase digest. The digest itself
//! comes from the `sha2` crate behind one trusted wrapper; its value is named
//! `sha256_of` and everything else is verified against that name.

use vstd::prelude::*;
use sha2::{Digest, Sha256};
use crate::codecs::{hex_chars_of, lemma_hex_chars_are_hex};

verus! {

/// The SHA-256 digest of a byte string: 32 bytes, a function of the input
/// alone.
pub uninterp spec fn sha256_of(data: Seq<u8>) -> Seq<u8>;

/// Relies on `sha2::Sha256` (`Digest::update` then `Digest::finalize`):
/// deterministic in the input bytes; the digest is 32 bytes.
#[verifier::external_body]
fn sha256_digest(data: &[u8]) -> (r: Vec<u8>)
    ensures
        r@ == sha256_of(data@),
        r@.len() == 32,
{
    let mut hasher = Sha256::new();
    hasher.update(data);
    hasher.finalize().to_vec()
}

/// The lowercase hexadecimal rendering of the SHA-256 digest of bytes.
pub open spec fn hash_hex_of(data: Seq<u8>) -> Seq<char> {
    hex_chars_of(sha256_of(data))
}

/// The digest text of a string: its UTF-8 bytes hashed and hex-rendered.
pub open spec fn string_hash_hex_of(s: Seq<char>) -> Seq<char> {
    hash_hex_of(vstd::utf8::encode_utf8(s))
}

/// The digest text of a byte buffer, as stored in file records.
pub fn hash_bytes(data: &[u8]) -> (r: String)
    ensures
        r@ == hash_hex_of(data@),
        r@.len() == 64,
{
    let digest = sha256_digest(data);
    encode(digest.as_slice())
}

/// The digest text of a string, as stored for passphrases and path ids.
pub fn hash_string(data: &str) -> (r: String)
    ensures
        r@ == string_hash_hex_of(data@),
        r@.len() == 64,
{
    let bytes = data.as_bytes_vec();
    hash_bytes(bytes.as_slice())
}

/// A digest text decodes back to its digest: it is hexadecimal by
/// construction.
pub proof fn lemma_hash_hex_decodes(data: Seq<u8>)
    ensures
        crate::codecs::is_hex_seq(hash_hex_of(data)),
        crate::codecs::hex_bytes_of(hash_hex_of(data)) == sha256_of(data),
{
    lemma_hex_chars_are_hex(sha256_of(data));
    crate::codecs::lemma_hex_round_trip(sha256_of(data));
}

/// Copies a byte buffer.
pub fn copy_bytes(data: &Vec<u8>) -> (r: Vec<u8>)
    ensures
        r@ == data@,
{
    let mut out: Vec<u8> = Vec::new();
    let mut i: usize = 0;
    while i < data.len()
        invariant
            i <= data@.len(),
            out@ == data@.take(i as int),
        decreases data@.len() - i,
    {
        out.push(data[i]);
        proof {
            assert(out@ =~= data@.take(i + 1));
        }
        i = i + 1;
    }
    proof {
        assert(out@ =~= data@);
    }
    out
}

/// Relies on `String::from_utf8`: it succeeds exactly on valid UTF-8 and
/// then decodes those bytes.
#[verifier::external_body]
pub fn bytes_to_string(v: Vec<u8>) -> (r: Result<String, ()>)
    ensures
        r is Ok <==> vstd::utf8::valid_utf8(v@),
        r is Ok ==> r->Ok_0@ == vstd::utf8::decode_utf8(v@),
{
    match String::from_utf8(v) {
        Ok(s) => Ok(s),
        Err(_) => Err(()),
    }
}

/// Encodes bytes as lowercase hexadecimal text.
pub fn encode(data: &[u8]) -> (r: String)
    ensures
        r@ == hex_chars_of(data@),
{
    crate::codecs::encode(data)
}

/// Encodes an owned byte buffer as lowercase hexadecimal text.
pub fn encode_vec(data: Vec<u8>) -> (r: String)
    ensures
        r@ == hex_chars_of(data@),
{
    crate::codecs::encode_vec(data)
}

/// Decodes hexadecimal text into a byte buffer.
pub fn decode_vec(data: &str) -> (r: Vec<u8>)
    requires
        crate::codecs::is_hex_seq(data@),
    ensures
        r@ == crate::codecs::hex_bytes_of(data@),
{
    crate::codecs::decode_vec(data.to_owned())
}

/// Decodes hexadecimal text into a fixed-size buffer prepared by the caller.
pub fn decode(data: String, out: &mut Vec<u8>)
    requires
        crate::codecs::is_hex_seq(data@),
        data@.len() == old(out)@.len() * 2,
    ensures
        final(out)@ == crate::codecs::hex_bytes_of(data@),
{
    crate::codecs::decode(data, out)
}

} // verus!
