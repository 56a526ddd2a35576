//! File-level encryption: a plaintext byte string to a framed block of
//! AEAD-encrypted chunks, and back.
//!
//! The plaintext is split into chunks of a fixed capacity; each chunk is one
//! independent AEAD message under the file's data key, and each ciphertext is
//! one frame of the block. `block_of` relates a plaintext to its block;
//! `block_plain_of` is what decryption recovers from arbitrary block bytes.

use vstd::prelude::*;
use crate::crypto::chacha::{aead_cipher_of, aead_plain_of, key_wf, KeyView};
use crate::errors::HelixError;
use crate::fileio::{frames_of, parse_frames};

pub mod chacha;

verus! {

/// Reports progress: how many bytes one processed chunk held.
pub trait ChunkObserver {
    fn bytes_processed(&mut self, byte_count: u64);
}

/// The plaintext split into chunks of up to `cap` bytes, in order; every
/// chunk is non-empty.
pub open spec fn chunks_of(data: Seq<u8>, cap: int) -> Seq<Seq<u8>>
    decreases data.len(),
        when 0 < cap
{
    if data.len() == 0 {
        Seq::empty()
    } else if data.len() <= cap {
        seq![data]
    } else {
        seq![data.take(cap)] + chunks_of(data.skip(cap), cap)
    }
}

/// The chunks joined back together.
pub open spec fn concat_of(chunks: Seq<Seq<u8>>) -> Seq<u8>
    decreases chunks.len(),
{
    if chunks.len() == 0 {
        Seq::empty()
    } else {
        chunks[0] + concat_of(chunks.drop_first())
    }
}

/// Splitting loses nothing: the chunks are non-empty, at most `cap` long,
/// and join back to the data.
pub proof fn lemma_chunks_of(data: Seq<u8>, cap: int)
    requires
        0 < cap,
    ensures
        forall|i: int|
            0 <= i < chunks_of(data, cap).len() ==> 0 < (#[trigger] chunks_of(data, cap)[i]).len()
                <= cap,
        concat_of(chunks_of(data, cap)) =~= data,
    decreases data.len(),
{
    if data.len() == 0 {
    } else if data.len() <= cap {
        let c = chunks_of(data, cap);
        assert(c =~= seq![data]);
        assert(c[0] == data);
        assert(c.drop_first() =~= Seq::<Seq<u8>>::empty());
        assert(concat_of(c) == data + concat_of(c.drop_first()));
        assert(concat_of(Seq::<Seq<u8>>::empty()) == Seq::<u8>::empty());
        assert(concat_of(c) =~= data);
    } else {
        lemma_chunks_of(data.skip(cap), cap);
        let c = chunks_of(data, cap);
        assert(c == seq![data.take(cap)] + chunks_of(data.skip(cap), cap));
        assert(c[0] == data.take(cap));
        assert(c.drop_first() =~= chunks_of(data.skip(cap), cap));
        assert(concat_of(c) == c[0] + concat_of(c.drop_first()));
        assert(concat_of(c) =~= data);
        assert forall|i: int| 0 <= i < c.len() implies 0 < (#[trigger] c[i]).len() <= cap by {
            if i > 0 {
                assert(c[i] == chunks_of(data.skip(cap), cap)[i - 1]);
            }
        }
    }
}

/// The ciphertext chunks of a plaintext under one key.
pub open spec fn encrypted_chunks_of(kv: KeyView, data: Seq<u8>, cap: int) -> Seq<Seq<u8>> {
    chunks_of(data, cap).map_values(|c: Seq<u8>| aead_cipher_of(kv.k, kv.n, c))
}

/// Every ciphertext chunk is its plaintext chunk plus the 16-byte tag: what
/// each encryption call establishes.
pub open spec fn cipher_lens_ok(kv: KeyView, data: Seq<u8>, cap: int) -> bool {
    forall|i: int|
        0 <= i < chunks_of(data, cap).len() ==> (#[trigger] aead_cipher_of(
            kv.k,
            kv.n,
            chunks_of(data, cap)[i],
        )).len() == chunks_of(data, cap)[i].len() + 16
}

/// The block bytes of a plaintext under one key and chunk capacity.
pub open spec fn block_bytes_of(kv: KeyView, data: Seq<u8>, cap: int) -> Seq<u8> {
    frames_of(encrypted_chunks_of(kv, data, cap))
}

/// `block` is the block of `data` under `kv` with chunk capacity `cap`.
pub open spec fn block_of(kv: KeyView, data: Seq<u8>, cap: int, block: Seq<u8>) -> bool {
    &&& 0 < cap <= 0xFFFFFFEF
    &&& cipher_lens_ok(kv, data, cap)
    &&& block == block_bytes_of(kv, data, cap)
}

/// The plaintext recovered from ciphertext chunks, in order; absent as soon
/// as one chunk fails to authenticate.
pub open spec fn decrypt_chunks(kv: KeyView, cts: Seq<Seq<u8>>) -> Option<Seq<u8>>
    decreases cts.len(),
{
    if cts.len() == 0 {
        Some(Seq::empty())
    } else {
        match aead_plain_of(kv.k, kv.n, cts[0]) {
            Some(p) => match decrypt_chunks(kv, cts.drop_first()) {
                Some(rest) => Some(p + rest),
                None => None,
            },
            None => None,
        }
    }
}

/// What decrypting arbitrary block bytes yields: absent on a cut-short frame
/// or a chunk that fails to authenticate.
pub open spec fn block_plain_of(kv: KeyView, block: Seq<u8>) -> Option<Seq<u8>> {
    match parse_frames(block) {
        Some(cts) => decrypt_chunks(kv, cts),
        None => None,
    }
}

/// When every chunk decrypts, the block decrypts to their joined plaintexts.
pub proof fn lemma_decrypt_chunks_pointwise(kv: KeyView, cts: Seq<Seq<u8>>, ps: Seq<Seq<u8>>)
    requires
        ps.len() == cts.len(),
        forall|i: int|
            0 <= i < cts.len() ==> aead_plain_of(kv.k, kv.n, #[trigger] cts[i]) == Some(ps[i]),
    ensures
        decrypt_chunks(kv, cts) == Some(concat_of(ps)),
    decreases cts.len(),
{
    if cts.len() == 0 {
        assert(concat_of(ps) =~= Seq::<u8>::empty());
    } else {
        assert(forall|i: int|
            0 <= i < cts.drop_first().len() ==> #[trigger] cts.drop_first()[i] == cts[i + 1]);
        assert(forall|i: int|
            0 <= i < ps.drop_first().len() ==> #[trigger] ps.drop_first()[i] == ps[i + 1]);
        lemma_decrypt_chunks_pointwise(kv, cts.drop_first(), ps.drop_first());
        assert(concat_of(ps) == ps[0] + concat_of(ps.drop_first()));
    }
}

/// One failing chunk fails the whole block.
pub proof fn lemma_decrypt_chunks_fail(kv: KeyView, cts: Seq<Seq<u8>>, i: int)
    requires
        0 <= i < cts.len(),
        aead_plain_of(kv.k, kv.n, cts[i]) is None,
    ensures
        decrypt_chunks(kv, cts) is None,
    decreases cts.len(),
{
    if i == 0 {
    } else {
        assert(cts.drop_first()[i - 1] == cts[i]);
        lemma_decrypt_chunks_fail(kv, cts.drop_first(), i - 1);
    }
}

/// Encrypts a plaintext byte string into a framed block.
pub trait FileEncryptor {
    /// The data key this encryptor applies.
    spec fn key(&self) -> KeyView;

    /// The chunk capacity this encryptor splits plaintext by.
    spec fn chunk_capacity(&self) -> int;

    fn encrypt<O: ChunkObserver>(&self, source: Vec<u8>, observer: &mut O) -> (r: Vec<u8>)
        requires
            key_wf(self.key()),
            0 < self.chunk_capacity() <= 0xFFFFFFEF,
        ensures
            block_of(self.key(), source@, self.chunk_capacity(), r@),
    ;
}

/// Decrypts a framed block back into its plaintext byte string.
pub trait FileDecryptor {
    /// The data key this decryptor applies.
    spec fn key(&self) -> KeyView;

    fn decrypt<O: ChunkObserver>(&self, source: Vec<u8>, observer: &mut O) -> (r: Result<
        Vec<u8>,
        HelixError,
    >)
        requires
            key_wf(self.key()),
        ensures
            r is Ok <==> block_plain_of(self.key(), source@) is Some,
            r is Ok ==> Some(r->Ok_0@) == block_plain_of(self.key(), source@),
            forall|data: Seq<u8>, cap: int|
                #[trigger] block_of(self.key(), data, cap, source@) ==> r is Ok && r->Ok_0@
                    == data,
    ;
}

} // verus!
