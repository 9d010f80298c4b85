//! A memory-fill primitive: writes one byte value to every position of a
//! buffer. The fill is organised the way a vectorised implementation is:
//! a buffer is split into an unaligned prefix, an aligned body of whole
//! vector-width chunks and an unaligned suffix; a repeated pattern is built
//! for the active width; and a capability dispatcher picks the widest tier
//! the machine supports and caches the choice. All of that logic is verified
//! here over a plain byte-vector model; the hardware store instructions
//! themselves live outside the verified library.

use vstd::prelude::*;

pub mod x86_64;

verus! {

/// Every byte of `s` equals `v`.
pub open spec fn filled(s: Seq<u8>, v: u8) -> bool {
    forall|i: int| 0 <= i < s.len() ==> s[i] == v
}

/// `post` is `pre` with the bytes of `[lo, hi)` set to `v` and every other
/// byte kept: a fill writes its range and touches nothing else.
pub open spec fn fill_applied(pre: Seq<u8>, post: Seq<u8>, lo: int, hi: int, v: u8) -> bool {
    &&& post.len() == pre.len()
    &&& forall|i: int| 0 <= i < post.len() ==> post[i] == (if lo <= i < hi {
        v
    } else {
        pre[i]
    })
}

/// Plain byte-at-a-time fill of `slice[lo..hi]`: the ordinary store loop that
/// the tiers use for their unaligned edges and as the universal fallback.
pub fn fill_range(slice: &mut Vec<u8>, lo: usize, hi: usize, byte: u8)
    requires
        lo <= hi <= old(slice)@.len(),
    ensures
        fill_applied(old(slice)@, final(slice)@, lo as int, hi as int, byte),
{
    let ghost orig = slice@;
    let mut i: usize = lo;
    while i < hi
        invariant
            lo <= i <= hi <= slice@.len(),
            slice@.len() == orig.len(),
            fill_applied(orig, slice@, lo as int, i as int, byte),
        decreases hi - i,
    {
        slice.set(i, byte);
        i += 1;
    }
}

/// Portable whole-buffer fill: correct for every length, including zero.
pub fn fallback(slice: &mut Vec<u8>, byte: u8)
    ensures
        final(slice)@.len() == old(slice)@.len(),
        filled(final(slice)@, byte),
{
    let n = slice.len();
    fill_range(slice, 0, n, byte);
}

/// The public entry point: after the call every byte of the buffer equals
/// `byte`. This portable route fills byte by byte; callers that have probed
/// the CPU dispatch through [`x86_64::memset`] instead, with the same
/// contract.
pub fn memset(slice: &mut Vec<u8>, byte: u8)
    ensures
        final(slice)@.len() == old(slice)@.len(),
        filled(final(slice)@, byte),
{
    fallback(slice, byte);
}

/// Filling is idempotent: a buffer that two fills with the same value can
/// produce is the same buffer, so a second `memset` with the same byte
/// leaves the state of the first one unchanged.
pub proof fn lemma_fill_idempotent(once: Seq<u8>, twice: Seq<u8>, v: u8)
    requires
        once.len() == twice.len(),
        filled(once, v),
        filled(twice, v),
    ensures
        once == twice,
{
    assert(once =~= twice);
}

/// Filling an empty buffer is a no-op: the buffer after the call is exactly
/// the buffer before it.
pub proof fn lemma_fill_empty(pre: Seq<u8>, post: Seq<u8>, v: u8)
    requires
        pre.len() == 0,
        post.len() == pre.len(),
        filled(post, v),
    ensures
        post == pre,
{
    assert(post =~= pre);
}

} // verus!
