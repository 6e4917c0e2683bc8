//! Substring search over byte sequences.

use vstd::prelude::*;

verus! {

/// `needle` stands in `hay` at offset `at`.
pub open spec fn occurs_at(hay: Seq<u8>, needle: Seq<u8>, at: int) -> bool {
    &&& 0 <= at
    &&& at + needle.len() <= hay.len()
    &&& hay.subrange(at, at + needle.len()) == needle
}

/// `needle` stands somewhere in `hay`, as a run of consecutive bytes.
pub open spec fn contains_seq(hay: Seq<u8>, needle: Seq<u8>) -> bool {
    exists|at: int| occurs_at(hay, needle, at)
}

/// Tells whether `needle` stands in `hay` at offset `at`.
pub fn matches_at(hay: &[u8], needle: &[u8], at: usize) -> (m: bool)
    requires
        at + needle@.len() <= hay@.len(),
    ensures
        m == occurs_at(hay@, needle@, at as int),
{
    let h: usize = hay.len();
    let n: usize = needle.len();
    let mut k: usize = 0;
    while k < n
        invariant
            h == hay@.len(),
            n == needle@.len(),
            at + n <= h,
            k <= n,
            forall|j: int| 0 <= j < k ==> hay@[at + j] == needle@[j],
        decreases n - k,
    {
        if hay[at + k] != needle[k] {
            proof {
                let window = hay@.subrange(at as int, at + n);
                assert(window[k as int] == hay@[at + k]);
            }
            return false;
        }
        k += 1;
    }
    proof {
        assert(hay@.subrange(at as int, at + n) =~= needle@);
    }
    true
}

/// Tells whether `needle` stands somewhere in `hay`. The empty needle stands
/// in every sequence.
pub fn contains_bytes(hay: &[u8], needle: &[u8]) -> (found: bool)
    ensures
        found == contains_seq(hay@, needle@),
{
    let h: usize = hay.len();
    let n: usize = needle.len();
    if n > h {
        return false;
    }
    let last: usize = h - n;
    let mut at: usize = 0;
    loop
        invariant
            h == hay@.len(),
            n == needle@.len(),
            last == h - n,
            at <= last,
            forall|k: int| 0 <= k < at ==> !occurs_at(hay@, needle@, k),
        decreases last - at,
    {
        if matches_at(hay, needle, at) {
            return true;
        }
        if at == last {
            return false;
        }
        at += 1;
    }
}

} // verus!
