//! The ChaCha20-Poly1305 file encryptor and decryptor.
//!
//! The encryptor streams a plaintext through the plain reader, encrypts each
//! buffer as one AEAD message and writes it as one frame; the decryptor reads
//! frames back, decrypts each and joins the plaintexts. Their contracts tie
//! both to `block_of` / `block_plain_of`, and the decryptor's final clause is
//! the round trip: a block some plaintext produced decrypts to exactly that
//! plaintext.

use vstd::prelude::*;
use crate::crypto::chacha::{aead_cipher_of, Key, KeyView, ByteDecryptorImpl, ByteEncryptorImpl};
use crate::crypto::{ByteDecryptor, ByteEncryptor};
use crate::errors::HelixError;
use crate::filecrypto::{
    block_of, block_plain_of, chunks_of, cipher_lens_ok, concat_of, encrypted_chunks_of,
    lemma_chunks_of, lemma_decrypt_chunks_fail, lemma_decrypt_chunks_pointwise, ChunkObserver,
    FileDecryptor, FileEncryptor,
};
use crate::fileio::readers::{ChunkReader, FileReader};
use crate::fileio::writers::{ChunkWriter, FileWriter};
use crate::fileio::{
    chunk_lens_ok, frame_of, frames_of, lemma_be32_bytes_of, lemma_frames_push,
    lemma_parse_after_prefix, lemma_parse_frames_of, parse_frames,
};

verus! {

/// Encrypts one plaintext into one block under one data key.
pub struct CCFileEncryptor<'a> {
    pub key: &'a Key,
    pub chunk_size: u32,
}

impl<'a> CCFileEncryptor<'a> {
    /// Binds an encryptor to a data key and a chunk capacity.
    pub fn from(key: &'a Key, chunk_size: u32) -> (r: Self)
        ensures
            r.key@ == key@,
            r.chunk_size == chunk_size,
    {
        CCFileEncryptor { key, chunk_size }
    }
}

impl FileEncryptor for CCFileEncryptor<'_> {
    open spec fn key(&self) -> KeyView {
        self.key@
    }

    open spec fn chunk_capacity(&self) -> int {
        self.chunk_size as int
    }

    fn encrypt<O: ChunkObserver>(&self, source: Vec<u8>, observer: &mut O) -> (r: Vec<u8>) {
        let ghost src = source@;
        let ghost kv = self.key@;
        let ghost cap = self.chunk_size as int;
        let byte_encryptor = ByteEncryptorImpl::from(self.key);
        let mut reader = FileReader::from(self.chunk_size, source);
        let mut writer = ChunkWriter::from();
        let ghost mut done: Seq<Seq<u8>> = Seq::empty();
        let mut data = reader.next();
        proof {
            if data is Some {
                assert(chunks_of(src, cap) =~= Seq::empty().push(data->Some_0@) + chunks_of(
                    src.skip(reader.pos as int),
                    cap,
                )) by {
                    assert(data->Some_0@ =~= if src.len() <= cap {
                        src
                    } else {
                        src.take(cap)
                    });
                    assert(src.skip(reader.pos as int) =~= if src.len() <= cap {
                        src.skip(src.len() as int)
                    } else {
                        src.skip(cap)
                    });
                }
            }
        }
        while data.is_some()
            invariant
                crate::crypto::chacha::key_wf(kv),
                byte_encryptor.key@ == kv,
                0 < cap <= 0xFFFFFFEF,
                reader.wf(),
                reader.data@ == src,
                reader.capacity == cap,
                writer.wf(),
                writer.chunks@.len() == done.len(),
                forall|i: int|
                    0 <= i < done.len() ==> writer.chunks@[i] == aead_cipher_of(
                        kv.k,
                        kv.n,
                        #[trigger] done[i],
                    ) && writer.chunks@[i].len() == done[i].len() + 16,
                data is Some ==> 0 < data->Some_0@.len() <= cap && chunks_of(src, cap) == done.push(
                    data->Some_0@,
                ) + chunks_of(src.skip(reader.pos as int), cap),
                data is None ==> reader.pos == src.len() && chunks_of(src, cap) == done,
            decreases 2 * (src.len() - reader.pos) + (if data is Some {
                1int
            } else {
                0int
            }),
        {
            let mut buffer = data.unwrap();
            let ghost plain = buffer@;
            let len = buffer.len();
            byte_encryptor.encrypt(&mut buffer);
            writer.write(buffer);
            proof {
                done = done.push(plain);
            }
            let ghost old_pos = reader.pos as int;
            data = reader.next();
            proof {
                let suffix = src.skip(old_pos);
                if data is Some {
                    assert(chunks_of(suffix, cap) =~= Seq::empty().push(data->Some_0@) + chunks_of(
                        src.skip(reader.pos as int),
                        cap,
                    )) by {
                        assert(suffix.len() > 0);
                        assert(data->Some_0@ =~= if suffix.len() <= cap {
                            suffix
                        } else {
                            suffix.take(cap)
                        });
                        assert(src.skip(reader.pos as int) =~= if suffix.len() <= cap {
                            suffix.skip(suffix.len() as int)
                        } else {
                            suffix.skip(cap)
                        });
                    }
                    assert(chunks_of(src, cap) =~= done.push(data->Some_0@) + chunks_of(
                        src.skip(reader.pos as int),
                        cap,
                    ));
                } else {
                    assert(suffix =~= Seq::<u8>::empty());
                    assert(chunks_of(src, cap) =~= done);
                }
            }
            observer.bytes_processed(len as u64);
        }
        proof {
            assert(writer.chunks@ =~= encrypted_chunks_of(kv, src, cap));
        }
        let out = writer.close();
        proof {
            assert(cipher_lens_ok(kv, src, cap)) by {
                assert(forall|i: int|
                    0 <= i < chunks_of(src, cap).len() ==> #[trigger] chunks_of(src, cap)[i]
                        == done[i]);
            }
        }
        out
    }
}

/// Decrypts one block back into its plaintext under one data key.
pub struct CCFileDecryptor<'a> {
    pub key: &'a Key,
}

impl<'a> CCFileDecryptor<'a> {
    /// Binds a decryptor to a data key.
    pub fn from(key: &'a Key) -> (r: Self)
        ensures
            r.key@ == key@,
    {
        CCFileDecryptor { key }
    }
}

impl FileDecryptor for CCFileDecryptor<'_> {
    open spec fn key(&self) -> KeyView {
        self.key@
    }

    #[verifier::rlimit(60)]
    fn decrypt<O: ChunkObserver>(&self, source: Vec<u8>, observer: &mut O) -> (r: Result<
        Vec<u8>,
        HelixError,
    >) {
        let ghost kv = self.key@;
        let ghost block = source@;
        let byte_decryptor = ByteDecryptorImpl::from(self.key);
        let mut reader = ChunkReader::from(source);
        let mut writer = FileWriter::from();
        let ghost mut cts: Seq<Seq<u8>> = Seq::empty();
        let ghost mut plains: Seq<Seq<u8>> = Seq::empty();
        loop
            invariant
                kv == self.key@,
                block == source@,
                crate::crypto::chacha::key_wf(kv),
                byte_decryptor.key@ == kv,
                reader.wf(),
                reader.data@ == block,
                block.take(reader.pos as int) == frames_of(cts),
                chunk_lens_ok(cts),
                writer.out@ == concat_of(plains),
                plains.len() == cts.len(),
                forall|i: int|
                    0 <= i < cts.len() ==> crate::crypto::chacha::aead_plain_of(
                        kv.k,
                        kv.n,
                        #[trigger] cts[i],
                    ) == Some(plains[i]),
                forall|i: int, p: Seq<u8>|
                    0 <= i < cts.len() && #[trigger] cts[i] == #[trigger] aead_cipher_of(
                        kv.k,
                        kv.n,
                        p,
                    ) ==> plains[i] == p,
            decreases block.len() - reader.pos,
        {
            let ghost old_pos = reader.pos as int;
            let step = reader.next();
            match step {
                Err(e) => {
                    proof {
                        lemma_block_undecodable(kv, block, cts, old_pos);
                    }
                    return Err(e);
                },
                Ok(None) => {
                    proof {
                        assert(block.take(block.len() as int) =~= block);
                        lemma_parse_frames_of(cts);
                        lemma_decrypt_chunks_pointwise(kv, cts, plains);
                        assert(block_plain_of(kv, block) == Some(concat_of(plains)));
                    }
                    let out = writer.close();
                    proof {
                        assert forall|data: Seq<u8>, cap: int|
                            #[trigger] block_of(kv, data, cap, block) implies out@ == data by {
                            lemma_plains_recover(kv, block, cts, plains, data, cap);
                            assert(out@ =~= concat_of(chunks_of(data, cap)));
                            lemma_chunks_of(data, cap);
                        }
                    }
                    return Ok(out);
                },
                Ok(Some(chunk)) => {
                    let ghost ct = chunk@;
                    proof {
                        lemma_frame_extend(block, old_pos, cts);
                    }
                    let len = chunk.len();
                    let mut buffer = chunk;
                    let auth = byte_decryptor.decrypt(&mut buffer);
                    match auth {
                        Err(e) => {
                            proof {
                                lemma_auth_fail(kv, block, cts, ct, reader.pos as int);
                                assert forall|data: Seq<u8>, cap: int|
                                    !(#[trigger] block_of(kv, data, cap, block)) by {
                                    if block_of(kv, data, cap, block) {
                                        assert(ct == aead_cipher_of(
                                            kv.k,
                                            kv.n,
                                            chunks_of(data, cap)[cts.len() as int],
                                        ));
                                    }
                                }
                            }
                            return Err(e);
                        },
                        Ok(_) => {
                            let ghost plain = buffer@;
                            writer.write(buffer);
                            proof {
                                let pre = plains;
                                cts = cts.push(ct);
                                plains = plains.push(plain);
                                lemma_concat_push(pre, plain);
                                assert(writer.out@ =~= concat_of(plains));
                            }
                            observer.bytes_processed(len as u64);
                        },
                    }
                },
            }
        }
    }
}

/// Joining one more plaintext appends its bytes.
proof fn lemma_concat_push(chunks: Seq<Seq<u8>>, chunk: Seq<u8>)
    ensures
        concat_of(chunks.push(chunk)) =~= concat_of(chunks) + chunk,
    decreases chunks.len(),
{
    if chunks.len() == 0 {
        assert(chunks.push(chunk).drop_first() =~= Seq::<Seq<u8>>::empty());
        assert(chunks.push(chunk)[0] == chunk);
        assert(concat_of(chunks.push(chunk)) == chunk + concat_of(Seq::<Seq<u8>>::empty()));
        assert(concat_of(chunks.push(chunk)) =~= concat_of(chunks) + chunk);
    } else {
        assert(chunks.push(chunk)[0] == chunks[0]);
        assert(chunks.push(chunk).drop_first() =~= chunks.drop_first().push(chunk));
        lemma_concat_push(chunks.drop_first(), chunk);
        assert(concat_of(chunks.push(chunk)) == chunks[0] + concat_of(
            chunks.drop_first().push(chunk),
        ));
        assert(concat_of(chunks.push(chunk)) =~= concat_of(chunks) + chunk);
    }
}

/// Reading one whole frame moves the boundary past it.
proof fn lemma_frame_extend(block: Seq<u8>, pos: int, cts: Seq<Seq<u8>>)
    requires
        0 <= pos,
        block.take(pos) == frames_of(cts),
        crate::fileio::frame_ok(block, pos),
        chunk_lens_ok(cts),
    ensures
        block.take(crate::fileio::frame_next(block, pos)) == frames_of(
            cts.push(crate::fileio::frame_chunk(block, pos)),
        ),
        crate::fileio::frame_chunk(block, pos).len() < 0x100000000,
        chunk_lens_ok(cts.push(crate::fileio::frame_chunk(block, pos))),
{
    let ct = crate::fileio::frame_chunk(block, pos);
    let newpos = crate::fileio::frame_next(block, pos);
    lemma_be32_bytes_of(block.subrange(pos, pos + 4));
    assert(block.take(newpos) =~= frames_of(cts) + frame_of(ct)) by {
        assert(frame_of(ct) =~= block.subrange(pos, newpos));
    }
    lemma_frames_push(cts, ct);
    assert(block.take(newpos) =~= frames_of(cts.push(ct)));
    assert forall|i: int|
        0 <= i < cts.push(ct).len() implies (#[trigger] cts.push(ct)[i]).len()
        < 0x100000000 by {
        if i < cts.len() {
            assert(cts.push(ct)[i] == cts[i]);
        }
    }
}

/// A chunk that fails to authenticate fails the whole block, and pins what
/// the chunk would have to be for any plaintext the block could belong to.
proof fn lemma_auth_fail(kv: KeyView, block: Seq<u8>, cts: Seq<Seq<u8>>, ct: Seq<u8>, newpos: int)
    requires
        0 <= newpos <= block.len(),
        block.take(newpos) == frames_of(cts.push(ct)),
        chunk_lens_ok(cts.push(ct)),
        crate::crypto::chacha::aead_plain_of(kv.k, kv.n, ct) is None,
    ensures
        block_plain_of(kv, block) is None,
        forall|data: Seq<u8>, cap: int|
            #[trigger] block_of(kv, data, cap, block) ==> cts.len() < chunks_of(data, cap).len()
                && ct == aead_cipher_of(kv.k, kv.n, chunks_of(data, cap)[cts.len() as int]),
{
    assert(block =~= frames_of(cts.push(ct)) + block.skip(newpos));
    lemma_parse_after_prefix(cts.push(ct), block.skip(newpos));
    if parse_frames(block) is Some {
        let full = parse_frames(block)->Some_0;
        assert(full[cts.len() as int] == ct);
        lemma_decrypt_chunks_fail(kv, full, cts.len() as int);
    }
    assert(block_plain_of(kv, block) is None);
    assert forall|data: Seq<u8>, cap: int|
        #[trigger] block_of(kv, data, cap, block) implies cts.len() < chunks_of(data, cap).len()
        && ct == aead_cipher_of(kv.k, kv.n, chunks_of(data, cap)[cts.len() as int]) by {
        lemma_parse_of_block(kv, data, cap, block);
        let encs = encrypted_chunks_of(kv, data, cap);
        assert(encs[cts.len() as int] == ct);
        assert(encs[cts.len() as int] == aead_cipher_of(
            kv.k,
            kv.n,
            chunks_of(data, cap)[cts.len() as int],
        ));
    }
}

/// A block whose next frame is cut short decodes to nothing, and is no
/// block of any plaintext.
proof fn lemma_block_undecodable(kv: KeyView, block: Seq<u8>, cts: Seq<Seq<u8>>, pos: int)
    requires
        0 <= pos < block.len(),
        block.take(pos) == frames_of(cts),
        chunk_lens_ok(cts),
        !crate::fileio::frame_ok(block, pos),
    ensures
        block_plain_of(kv, block) is None,
        forall|data: Seq<u8>, cap: int| !(#[trigger] block_of(kv, data, cap, block)),
{
    let suffix = block.skip(pos);
    assert(block =~= frames_of(cts) + suffix);
    assert(suffix.len() > 0);
    assert(!crate::fileio::frame_ok(suffix, 0)) by {
        if crate::fileio::frame_ok(suffix, 0) {
            assert(suffix.subrange(0, 4) =~= block.subrange(pos, pos + 4));
        }
    }
    assert(parse_frames(suffix) is None);
    lemma_parse_after_prefix(cts, suffix);
    assert(parse_frames(block) is None);
    assert forall|data: Seq<u8>, cap: int| !(#[trigger] block_of(kv, data, cap, block)) by {
        if block_of(kv, data, cap, block) {
            lemma_parse_of_block(kv, data, cap, block);
        }
    }
}

/// A well-formed block parses back into its ciphertext chunks.
proof fn lemma_parse_of_block(kv: KeyView, data: Seq<u8>, cap: int, block: Seq<u8>)
    requires
        block_of(kv, data, cap, block),
    ensures
        parse_frames(block) == Some(encrypted_chunks_of(kv, data, cap)),
{
    lemma_chunks_of(data, cap);
    assert(chunk_lens_ok(encrypted_chunks_of(kv, data, cap))) by {
        assert(forall|i: int|
            0 <= i < encrypted_chunks_of(kv, data, cap).len()
                ==> #[trigger] encrypted_chunks_of(kv, data, cap)[i] == aead_cipher_of(
                kv.k,
                kv.n,
                chunks_of(data, cap)[i],
            ));
    }
    lemma_parse_frames_of(encrypted_chunks_of(kv, data, cap));
}

/// When a parsed block's chunks all decrypted, and the block is the block of
/// some plaintext, the recovered plaintexts are that plaintext's chunks.
proof fn lemma_plains_recover(
    kv: KeyView,
    block: Seq<u8>,
    cts: Seq<Seq<u8>>,
    plains: Seq<Seq<u8>>,
    data: Seq<u8>,
    cap: int,
)
    requires
        parse_frames(block) == Some(cts),
        plains.len() == cts.len(),
        forall|i: int, p: Seq<u8>|
            0 <= i < cts.len() && #[trigger] cts[i] == #[trigger] aead_cipher_of(kv.k, kv.n, p)
                ==> plains[i] == p,
        block_of(kv, data, cap, block),
    ensures
        plains =~= chunks_of(data, cap),
{
    lemma_parse_of_block(kv, data, cap, block);
    let encs = encrypted_chunks_of(kv, data, cap);
    assert(cts == encs);
    assert forall|i: int| 0 <= i < plains.len() implies plains[i] == chunks_of(data, cap)[i] by {
        assert(encs[i] == aead_cipher_of(kv.k, kv.n, chunks_of(data, cap)[i]));
    }
}

} // verus!
