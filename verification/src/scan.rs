//! Generic substring search over a byte buffer: the single primitive behind
//! both the HTTP request-line and the correlation-header extraction.

use vstd::prelude::*;

verus! {

/// `needle` occurs in `haystack` at offset `i`.
pub open spec fn match_at(haystack: Seq<u8>, needle: Seq<u8>, i: int) -> bool {
    &&& 0 <= i
    &&& i + needle.len() <= haystack.len()
    &&& haystack.subrange(i, i + needle.len() as int) == needle
}

/// Offset of the leftmost occurrence of `needle` in `haystack`.
/// `None` when the needle is empty, longer than the haystack, or absent.
pub open spec fn spec_find(haystack: Seq<u8>, needle: Seq<u8>) -> Option<int>
    decreases haystack.len(),
{
    if needle.len() == 0 || needle.len() > haystack.len() {
        None
    } else if haystack.subrange(0, needle.len() as int) == needle {
        Some(0)
    } else {
        match spec_find(haystack.subrange(1, haystack.len() as int), needle) {
            Some(i) => Some(i + 1),
            None => None,
        }
    }
}

/// `spec_find` returns the leftmost match: a found offset is a match with no
/// match before it, and `None` means an empty needle or no match at all.
pub proof fn lemma_find_first(haystack: Seq<u8>, needle: Seq<u8>)
    ensures
        match spec_find(haystack, needle) {
            Some(i) => needle.len() > 0 && match_at(haystack, needle, i) && (forall|j: int|
                0 <= j < i ==> !match_at(haystack, needle, j)),
            None => needle.len() == 0 || (forall|j: int| !match_at(haystack, needle, j)),
        },
    decreases haystack.len(),
{
    if needle.len() == 0 || needle.len() > haystack.len() {
        if needle.len() > haystack.len() {
            assert(forall|j: int| !match_at(haystack, needle, j));
        }
    } else if haystack.subrange(0, needle.len() as int) == needle {
        assert(match_at(haystack, needle, 0));
    } else {
        let tail = haystack.subrange(1, haystack.len() as int);
        lemma_find_first(tail, needle);
        assert forall|j: int| 1 <= j && match_at(haystack, needle, j) implies match_at(
            tail,
            needle,
            j - 1,
        ) by {
            assert(tail.subrange(j - 1, j - 1 + needle.len() as int) =~= haystack.subrange(
                j,
                j + needle.len() as int,
            ));
        }
        assert forall|j: int| 0 <= j && match_at(tail, needle, j) implies match_at(
            haystack,
            needle,
            j + 1,
        ) by {
            assert(haystack.subrange(j + 1, j + 1 + needle.len() as int) =~= tail.subrange(
                j,
                j + needle.len() as int,
            ));
        }
        match spec_find(tail, needle) {
            Some(i) => {
                assert(match_at(haystack, needle, i + 1));
                assert forall|j: int| 0 <= j < i + 1 implies !match_at(haystack, needle, j) by {
                    if j == 0 {
                        assert(!match_at(haystack, needle, 0));
                    } else if match_at(haystack, needle, j) {
                        assert(match_at(tail, needle, j - 1));
                    }
                }
            },
            None => {
                assert forall|j: int| !match_at(haystack, needle, j) by {
                    if 1 <= j && match_at(haystack, needle, j) {
                        assert(match_at(tail, needle, j - 1));
                    }
                }
            },
        }
    }
}

/// Whether `needle` occurs in `haystack` exactly at offset `i`.
fn matches_at(haystack: &[u8], needle: &[u8], i: usize) -> (r: bool)
    requires
        i + needle@.len() <= haystack@.len(),
    ensures
        r == match_at(haystack@, needle@, i as int),
{
    let n = needle.len();
    let hlen = haystack.len();
    let mut j: usize = 0;
    while j < n
        invariant
            n == needle@.len(),
            hlen == haystack@.len(),
            i + n <= hlen,
            j <= n,
            forall|k: int| 0 <= k < j ==> haystack@[i + k] == needle@[k],
        decreases n - j,
    {
        if haystack[i + j] != needle[j] {
            proof {
                if match_at(haystack@, needle@, i as int) {
                    assert(haystack@.subrange(i as int, i + needle@.len() as int)[j as int]
                        == needle@[j as int]);
                }
            }
            return false;
        }
        j += 1;
    }
    proof {
        assert(haystack@.subrange(i as int, i + needle@.len() as int) =~= needle@);
    }
    true
}

/// Byte offset of the leftmost occurrence of `needle` in `haystack`;
/// `None` when the needle is empty, longer than the haystack, or absent.
pub fn find_subarray(haystack: &[u8], needle: &[u8]) -> (r: Option<usize>)
    ensures
        match r {
            Some(i) => spec_find(haystack@, needle@) == Some(i as int),
            None => spec_find(haystack@, needle@) is None,
        },
{
    if needle.len() == 0 || needle.len() > haystack.len() {
        return None;
    }
    let hlen = haystack.len();
    let last: usize = hlen - needle.len();
    let mut i: usize = 0;
    while i <= last
        invariant
            0 < needle@.len() <= haystack@.len(),
            hlen == haystack@.len(),
            last == haystack@.len() - needle@.len(),
            i <= last + 1,
            last < hlen,
            forall|j: int| 0 <= j < i ==> !match_at(haystack@, needle@, j),
        decreases last + 1 - i,
    {
        if matches_at(haystack, needle, i) {
            proof {
                lemma_find_first(haystack@, needle@);
                match spec_find(haystack@, needle@) {
                    Some(k) => {
                        if k < i {
                            assert(!match_at(haystack@, needle@, k));
                        }
                        if k > i {
                            assert(!match_at(haystack@, needle@, i as int));
                        }
                    },
                    None => {
                        assert(!match_at(haystack@, needle@, i as int));
                    },
                }
            }
            return Some(i);
        }
        i += 1;
    }
    proof {
        lemma_find_first(haystack@, needle@);
        assert forall|j: int| !match_at(haystack@, needle@, j) by {
            if j > last {
                assert(!match_at(haystack@, needle@, j));
            }
        }
        if spec_find(haystack@, needle@) is Some {
            let k = spec_find(haystack@, needle@)->0;
            assert(match_at(haystack@, needle@, k));
        }
    }
    None
}

} // verus!
