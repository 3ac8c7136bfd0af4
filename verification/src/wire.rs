//! Fixed-width fields inside a byte buffer.

use vstd::prelude::*;
use vstd::bytes::{spec_u64_from_le_bytes, spec_u64_to_le_bytes, u64_from_le_bytes, u64_to_le_bytes};
use vstd::slice::slice_subrange;

verus! {

/// `s` with the bytes from `at` on replaced by `part`.
pub open spec fn overwrite(s: Seq<u8>, at: int, part: Seq<u8>) -> Seq<u8> {
    s.subrange(0, at) + part + s.subrange(at + part.len(), s.len() as int)
}

/// The `N` bytes of `src` that start at `at`.
pub fn take<const N: usize>(src: &[u8], at: usize) -> (out: [u8; N])
    requires
        at + N <= src@.len(),
    ensures
        out@ == src@.subrange(at as int, at + N),
{
    let len = src.len();
    let mut out: [u8; N] = [0u8; N];
    let mut i: usize = 0;
    while i < N
        invariant
            i <= N,
            at + N <= src@.len() == len,
            forall|k: int| 0 <= k < i ==> out@[k] == src@[at + k],
        decreases N - i,
    {
        out[i] = src[at + i];
        i += 1;
    }
    assert(out@ =~= src@.subrange(at as int, at + N));
    out
}

/// Writes `src` into `dst` from `at` on, and leaves the other bytes as they are.
pub fn put(dst: &mut [u8], at: usize, src: &[u8])
    requires
        at + src@.len() <= old(dst)@.len(),
    ensures
        final(dst)@ == overwrite(old(dst)@, at as int, src@),
{
    let n = src.len();
    let len = dst.len();
    let mut i: usize = 0;
    while i < n
        invariant
            i <= n,
            n == src@.len(),
            at + n <= old(dst)@.len(),
            dst@.len() == old(dst)@.len() == len,
            forall|k: int| 0 <= k < dst@.len() ==> dst@[k] == if at <= k < at + i {
                src@[k - at]
            } else {
                old(dst)@[k]
            },
        decreases n - i,
    {
        dst[at + i] = src[i];
        i += 1;
    }
    assert(dst@ =~= overwrite(old(dst)@, at as int, src@));
}

/// The 64-bit number that `src` holds in little-endian order from `at` on.
pub fn read_u64(src: &[u8], at: usize) -> (x: u64)
    requires
        at + 8 <= src@.len(),
    ensures
        x == spec_u64_from_le_bytes(src@.subrange(at as int, at + 8)),
{
    let len = src.len();
    u64_from_le_bytes(slice_subrange(src, at, at + 8))
}

/// The eight bytes of `x` in little-endian order.
pub fn u64_bytes(x: u64) -> (out: [u8; 8])
    ensures
        out@ == spec_u64_to_le_bytes(x),
{
    let v = u64_to_le_bytes(x);
    take::<8>(v.as_slice(), 0)
}

} // verus!
