//! Small verified string utilities: substring search over character
//! sequences, used when classifying state paths.

use vstd::prelude::*;

verus! {

/// Whether `needle` occurs contiguously inside `haystack`.
pub open spec fn contains_substring(haystack: Seq<char>, needle: Seq<char>) -> bool {
    exists|i: int|
        0 <= i <= haystack.len() - needle.len() && #[trigger] haystack.subrange(
            i,
            i + needle.len(),
        ) == needle
}

/// Whether `needle` starts at position `at` of `haystack`.
fn matches_at(haystack: &str, needle: &str, at: usize, h_len: usize, n_len: usize) -> (r: bool)
    requires
        h_len == haystack@.len(),
        n_len == needle@.len(),
        at + n_len <= h_len,
    ensures
        r == (haystack@.subrange(at as int, at + needle@.len()) == needle@),
{
    let mut j: usize = 0;
    while j < n_len
        invariant
            h_len == haystack@.len(),
            n_len == needle@.len(),
            at + n_len <= h_len,
            j <= n_len,
            forall|w: int| 0 <= w < j ==> haystack@[at + w] == needle@[w],
        decreases n_len - j,
    {
        if haystack.get_char(at + j) != needle.get_char(j) {
            proof {
                assert(haystack@.subrange(at as int, at + needle@.len())[j as int]
                    == haystack@[at + j]);
            }
            return false;
        }
        j = j + 1;
    }
    proof {
        assert(haystack@.subrange(at as int, at + needle@.len()) =~= needle@);
    }
    return true;
}

/// Whether `needle` occurs anywhere in `haystack`, by characters.
pub fn str_contains(haystack: &str, needle: &str) -> (r: bool)
    ensures
        r == contains_substring(haystack@, needle@),
{
    let h_len = haystack.unicode_len();
    let n_len = needle.unicode_len();
    if n_len > h_len {
        proof {
            assert(!contains_substring(haystack@, needle@)) by {
                if contains_substring(haystack@, needle@) {
                    let i = choose|i: int|
                        0 <= i <= haystack@.len() - needle@.len() && #[trigger] haystack@.subrange(
                            i,
                            i + needle@.len(),
                        ) == needle@;
                    assert(i <= haystack@.len() - needle@.len() < 0);
                }
            };
        }
        return false;
    }
    if n_len == 0 {
        proof {
            assert(haystack@.subrange(0, 0 + needle@.len() as int) =~= needle@);
            assert(contains_substring(haystack@, needle@));
        }
        return true;
    }
    let bound = h_len - n_len;
    let mut i: usize = 0;
    while i <= bound
        invariant
            h_len == haystack@.len(),
            n_len == needle@.len(),
            1 <= n_len <= h_len,
            bound == h_len - n_len,
            i <= bound + 1,
            forall|w: int|
                0 <= w < i ==> #[trigger] haystack@.subrange(w, w + needle@.len()) != needle@,
        decreases bound + 1 - i,
    {
        if matches_at(haystack, needle, i, h_len, n_len) {
            proof {
                assert(contains_substring(haystack@, needle@)) by {
                    assert(0 <= i as int <= haystack@.len() - needle@.len());
                    assert(haystack@.subrange(i as int, i + needle@.len()) == needle@);
                }
            }
            return true;
        }
        i = i + 1;
    }
    proof {
        assert(!contains_substring(haystack@, needle@)) by {
            if contains_substring(haystack@, needle@) {
                let w = choose|w: int|
                    0 <= w <= haystack@.len() - needle@.len() && #[trigger] haystack@.subrange(
                        w,
                        w + needle@.len(),
                    ) == needle@;
                assert(w < i);
            }
        };
    }
    return false;
}

} // verus!
