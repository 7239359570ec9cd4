//! Byte-level substring matching, used to recognize error signatures.

use vstd::prelude::*;

verus! {

/// `needle` stands at position `at` of `hay`.
pub open spec fn matches_at(hay: Seq<u8>, needle: Seq<u8>, at: int) -> bool {
    &&& 0 <= at
    &&& at + needle.len() <= hay.len()
    &&& hay.subrange(at, at + needle.len()) == needle
}

/// `needle` occurs somewhere in `hay`.
pub open spec fn contains_seq(hay: Seq<u8>, needle: Seq<u8>) -> bool {
    exists|at: int| matches_at(hay, needle, at)
}

/// Substring scan: whether `needle` occurs in `hay`.
pub fn contains_bytes(hay: &[u8], needle: &[u8]) -> (r: bool)
    ensures
        r == contains_seq(hay@, needle@),
{
    let n = hay.len();
    let m = needle.len();
    if m == 0 {
        proof {
            assert(hay@.subrange(0, 0) =~= needle@);
            assert(matches_at(hay@, needle@, 0));
        }
        return true;
    }
    if m > n {
        proof {
            assert(forall|at: int| !matches_at(hay@, needle@, at));
        }
        return false;
    }
    let mut i: usize = 0;
    while i <= n - m
        invariant
            1 <= m <= n,
            n == hay@.len(),
            m == needle@.len(),
            0 <= i <= n - m + 1,
            forall|at: int| 0 <= at < i ==> !matches_at(hay@, needle@, at),
        decreases n - m + 1 - i,
    {
        let mut j: usize = 0;
        let mut mismatch = false;
        while j < m && !mismatch
            invariant
                1 <= m <= n,
                n == hay@.len(),
                m == needle@.len(),
                i <= n - m,
                0 <= j <= m,
                !mismatch ==> forall|q: int| 0 <= q < j ==> hay@[i + q] == needle@[q],
                mismatch ==> !matches_at(hay@, needle@, i as int),
            decreases m - j, (if mismatch { 0int } else { 1int }),
        {
            if hay[i + j] != needle[j] {
                proof {
                    assert(hay@.subrange(i as int, i + m) != needle@) by {
                        assert(hay@.subrange(i as int, i + m)[j as int] == hay@[i + j]);
                    }
                }
                mismatch = true;
            } else {
                j = j + 1;
            }
        }
        if !mismatch {
            proof {
                assert(hay@.subrange(i as int, i + m) =~= needle@);
                assert(matches_at(hay@, needle@, i as int));
            }
            return true;
        }
        i = i + 1;
    }
    proof {
        assert(forall|at: int| matches_at(hay@, needle@, at) ==> 0 <= at < i);
    }
    false
}

} // verus!
