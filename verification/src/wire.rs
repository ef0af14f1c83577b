//! Big-endian integer fields and byte-sequence search, the primitives of the
//! wire format: every frame starts with a 4-byte big-endian length and a
//! 2-byte big-endian header id.

use vstd::prelude::*;

verus! {

/// The value of the two big-endian bytes at position `i` of `s`.
pub open spec fn be16_at(s: Seq<u8>, i: int) -> int
    recommends
        0 <= i,
        i + 2 <= s.len(),
{
    s[i] * 0x100 + s[i + 1]
}

/// The value of the four big-endian bytes at position `i` of `s`.
pub open spec fn be32_at(s: Seq<u8>, i: int) -> int
    recommends
        0 <= i,
        i + 4 <= s.len(),
{
    s[i] * 0x100_0000 + s[i + 1] * 0x1_0000 + s[i + 2] * 0x100 + s[i + 3]
}

/// Reads the big-endian `u16` at position `i` of `s`.
pub fn read_be16(s: &[u8], i: usize) -> (r: u16)
    requires
        i + 2 <= s@.len(),
    ensures
        r == be16_at(s@, i as int),
{
    let n = s.len();
    assert(i + 2 <= n);
    let hi = *vstd::slice::slice_index_get(s, i) as u16;
    let lo = *vstd::slice::slice_index_get(s, i + 1) as u16;
    hi * 0x100 + lo
}

/// Reads the big-endian `u32` at position `i` of `s`.
pub fn read_be32(s: &[u8], i: usize) -> (r: u32)
    requires
        i + 4 <= s@.len(),
    ensures
        r == be32_at(s@, i as int),
{
    let n = s.len();
    assert(i + 4 <= n);
    let b0 = *vstd::slice::slice_index_get(s, i) as u32;
    let b1 = *vstd::slice::slice_index_get(s, i + 1) as u32;
    let b2 = *vstd::slice::slice_index_get(s, i + 2) as u32;
    let b3 = *vstd::slice::slice_index_get(s, i + 3) as u32;
    b0 * 0x100_0000 + b1 * 0x1_0000 + b2 * 0x100 + b3
}

/// `needle` occurs as a contiguous run inside `haystack`.
pub open spec fn contains_seq(haystack: Seq<u8>, needle: Seq<u8>) -> bool {
    exists|i: int|
        0 <= i && i + needle.len() <= haystack.len() && #[trigger] haystack.subrange(
            i,
            i + needle.len(),
        ) == needle
}

/// Whether `needle` matches `haystack` starting at position `i`.
fn matches_at(haystack: &[u8], needle: &[u8], i: usize) -> (r: bool)
    requires
        i + needle@.len() <= haystack@.len(),
    ensures
        r == (haystack@.subrange(i as int, i + needle@.len()) == needle@),
{
    let n = needle.len();
    let hl = haystack.len();
    assert(i + n <= hl);
    let mut j: usize = 0;
    while j < n
        invariant
            j <= n,
            n == needle@.len(),
            i + n <= hl,
            hl == haystack@.len(),
            forall|k: int| 0 <= k < j ==> haystack@[i + k] == needle@[k],
        decreases n - j,
    {
        if *vstd::slice::slice_index_get(haystack, i + j) != *vstd::slice::slice_index_get(
            needle,
            j,
        ) {
            assert(haystack@.subrange(i as int, i + n) != needle@) by {
                assert(haystack@.subrange(i as int, i + n)[j as int] == haystack@[i + j]);
            }
            return false;
        }
        j = j + 1;
    }
    assert(haystack@.subrange(i as int, i + n) =~= needle@);
    true
}

/// Naive byte-sequence search: true exactly when `needle` occurs contiguously
/// inside `haystack`.
pub fn find_seq(haystack: &[u8], needle: &[u8]) -> (r: bool)
    ensures
        r == contains_seq(haystack@, needle@),
{
    let h = haystack.len();
    let n = needle.len();
    if n > h {
        assert(!contains_seq(haystack@, needle@));
        return false;
    }
    if n == 0 {
        assert(contains_seq(haystack@, needle@)) by {
            assert(haystack@.subrange(0, 0 + needle@.len() as int) =~= needle@);
        }
        return true;
    }
    let mut i: usize = 0;
    while i <= h - n
        invariant
            1 <= n <= h,
            h == haystack@.len(),
            n == needle@.len(),
            i <= h - n + 1,
            forall|k: int|
                0 <= k < i ==> #[trigger] haystack@.subrange(k, k + needle@.len()) != needle@,
        decreases h - n + 1 - i,
    {
        if matches_at(haystack, needle, i) {
            return true;
        }
        i = i + 1;
    }
    assert(!contains_seq(haystack@, needle@));
    false
}

} // verus!
