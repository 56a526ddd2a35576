//! The walker's exclusion rules.
//!
//! The shell walks the source tree; these predicates decide which entries the
//! encryption pass takes: hidden entries (a name starting with a dot) are
//! skipped, anything on a path through the capsule's own `.helix` directory
//! is skipped, and so is the tool's own executable.

use vstd::prelude::*;
use crate::master_key::strings_equal;

verus! {

/// A hidden entry: its name starts with a dot.
pub open spec fn hidden_name(name: Seq<char>) -> bool {
    name.len() > 0 && name[0] == '.'
}

/// `pat` occurs somewhere in `text`.
pub open spec fn contains_seq(text: Seq<char>, pat: Seq<char>) -> bool {
    exists|i: int|
        0 <= i && i + pat.len() <= text.len() && #[trigger] text.subrange(i, i + pat.len() as int)
            =~= pat
}

/// A capsule-internal path: it passes through a `.helix` component.
pub open spec fn helix_path(path: Seq<char>) -> bool {
    contains_seq(path, ".helix"@)
}

/// The tool's own executable name.
pub open spec fn helix_runnable_name(name: Seq<char>) -> bool {
    name == "helix.exe"@
}

/// An entry the encryption pass takes: not hidden, not inside the capsule,
/// not the tool itself.
pub open spec fn included_entry(path: Seq<char>, name: Seq<char>) -> bool {
    !hidden_name(name) && !helix_path(path) && !helix_runnable_name(name)
}

/// Reports whether an entry's name marks it hidden.
pub fn is_hidden(file_name: &str) -> (r: bool)
    ensures
        r == hidden_name(file_name@),
{
    if file_name.unicode_len() == 0 {
        return false;
    }
    file_name.get_char(0) == '.'
}

/// Reports whether `pat` occurs in `text`.
pub fn text_contains(text: &str, pat: &str) -> (r: bool)
    requires
        text@.len() <= usize::MAX,
    ensures
        r == contains_seq(text@, pat@),
{
    let n = text.unicode_len();
    let m = pat.unicode_len();
    if m > n {
        return false;
    }
    let mut i: usize = 0;
    while i <= n - m
        invariant
            m <= n,
            n == text@.len(),
            m == pat@.len(),
            n <= usize::MAX,
            i <= n - m + 1,
            forall|j: int|
                0 <= j < i ==> !(#[trigger] text@.subrange(j, j + pat@.len() as int) =~= pat@),
        decreases n - m + 1 - i,
    {
        let mut k: usize = 0;
        let mut hit = true;
        while k < m
            invariant
                i + m <= n,
                n == text@.len(),
                m == pat@.len(),
                n <= usize::MAX,
                k <= m,
                hit == (text@.subrange(i as int, i + k as int) =~= pat@.subrange(0, k as int)),
            decreases m - k,
        {
            if text.get_char(i + k) != pat.get_char(k) {
                proof {
                    assert(text@.subrange(i as int, i + (k + 1) as int)[k as int] != pat@.subrange(
                        0,
                        (k + 1) as int,
                    )[k as int]);
                }
                hit = false;
                k = m;
            } else {
                proof {
                    if hit {
                        assert(text@.subrange(i as int, i + (k + 1) as int) =~= pat@.subrange(
                            0,
                            (k + 1) as int,
                        ));
                    } else {
                        let w = choose|w: int|
                            0 <= w < k && text@.subrange(i as int, i + k as int)[w]
                                != pat@.subrange(0, k as int)[w];
                        assert(text@.subrange(i as int, i + (k + 1) as int)[w] != pat@.subrange(
                            0,
                            (k + 1) as int,
                        )[w]);
                    }
                }
                k = k + 1;
            }
        }
        if hit {
            proof {
                assert(pat@.subrange(0, m as int) =~= pat@);
                assert(text@.subrange(i as int, i + pat@.len() as int) =~= pat@);
            }
            return true;
        }
        proof {
            assert(!(text@.subrange(i as int, i + pat@.len() as int) =~= pat@));
        }
        i = i + 1;
    }
    proof {
        assert forall|j: int| 0 <= j && j + pat@.len() <= text@.len() implies !(
        #[trigger] text@.subrange(j, j + pat@.len() as int) =~= pat@) by {}
    }
    false
}

/// Reports whether a path passes through the capsule's own directory.
pub fn is_helix(path: &str) -> (r: bool)
    requires
        path@.len() <= usize::MAX,
    ensures
        r == helix_path(path@),
{
    text_contains(path, ".helix")
}

/// Reports whether an entry is the tool's own executable.
pub fn is_helix_runnable(file_name: &str) -> (r: bool)
    ensures
        r == helix_runnable_name(file_name@),
{
    strings_equal(file_name, "helix.exe")
}

/// Reports whether the encryption pass takes this entry.
pub fn should_include(path: &str, file_name: &str) -> (r: bool)
    requires
        path@.len() <= usize::MAX,
    ensures
        r == included_entry(path@, file_name@),
{
    !is_hidden(file_name) && !is_helix(path) && !is_helix_runnable(file_name)
}

} // verus!
