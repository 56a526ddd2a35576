//! The observer surface: how the drivers report progress.
//!
//! The shell supplies an observer per file; the drivers call it and promise
//! nothing about it. The fixed-width name formatter lives here too, so that a
//! shell can render one aligned progress line per file.

use vstd::prelude::*;
use crate::errors::HelixError;
use crate::filecrypto::ChunkObserver;

verus! {

/// The checks an encryption pass announces before deciding.
pub enum EncryptionStates {
    PlainFileCheck,
    EncryptedBlockCheck,
}

/// How an encryption pass over one file ends.
pub enum EncryptionEndState {
    Done,
    Unchanged,
}

/// Watches one file's encryption pass.
pub trait EncryptionObserver: ChunkObserver {
    fn update_state(&mut self, state: EncryptionStates);

    fn failed(&mut self, error: HelixError);

    fn end(&mut self, end_state: EncryptionEndState);
}

/// The checks a decryption pass announces before deciding.
pub enum DecryptionStates {
    EncryptedBlockCheck,
}

/// How a decryption pass over one file ends.
pub enum DecryptionEndState {
    Done,
    MalformedBlock,
    BlockNotFound,
}

/// Watches one file's decryption pass. The block's size is only known after
/// the integrity check, so it arrives late through `init_size`.
pub trait DecryptionObserver: ChunkObserver {
    fn init_size(&mut self, file_size: u64);

    fn update_state(&mut self, state: DecryptionStates);

    fn failed(&mut self, error: HelixError);

    fn end(&mut self, end_state: DecryptionEndState);
}

/// A name brought to exactly twenty characters: padded with spaces, or cut
/// to seventeen and given a three-dot ellipsis.
pub open spec fn fixed_name_of(name: Seq<char>) -> Seq<char> {
    if name.len() < 20 {
        name + Seq::new((20 - name.len()) as nat, |i: int| ' ')
    } else if name.len() > 20 {
        name.take(17) + "..."@
    } else {
        name
    }
}

/// Formats a file name at exactly twenty characters for aligned output.
pub fn get_fixed_filename(filename: &str) -> (r: String)
    ensures
        r@ == fixed_name_of(filename@),
        r@.len() == 20,
{
    proof {
        reveal_strlit("...");
        reveal_strlit(" ");
    }
    let size: usize = 20;
    let n = filename.unicode_len();
    if n < size {
        let mut out = filename.to_owned();
        let mut i: usize = n;
        while i < size
            invariant
                n <= i <= size,
                size == 20,
                out@ == filename@ + Seq::new((i - n) as nat, |j: int| ' '),
            decreases size - i,
        {
            out.append(" ");
            proof {
                reveal_strlit(" ");
                assert(out@ =~= filename@ + Seq::new((i + 1 - n) as nat, |j: int| ' '));
            }
            i = i + 1;
        }
        out
    } else if n > size {
        let mut out = filename.substring_char(0, size - 3).to_owned();
        out.append("...");
        proof {
            assert(out@ =~= fixed_name_of(filename@));
        }
        out
    } else {
        filename.to_owned()
    }
}

} // verus!
