//! The vectored architecture's side of the fill: the boundary splitter, the
//! repeated-pattern builders, the fill tiers and the capability dispatcher.

use vstd::prelude::*;
use crate::fill_range;
use vstd::arithmetic::div_mod::{
    lemma_fundamental_div_mod, lemma_mod_decreases, lemma_mod_multiples_basic, lemma_small_mod,
};

verus! {

/// Splits a region of `len` bytes that starts at address `addr` into
/// `(prefix, body, suffix)`: the body starts at an address that is a
/// multiple of `w` and covers a whole number of `w`-byte chunks, and both
/// edges are shorter than `w`. A buffer shorter than the distance to the
/// next aligned address goes entirely to the prefix. Pure address
/// arithmetic: no memory is read or written.
pub fn split_for_width(addr: usize, len: usize, w: usize) -> (r: (usize, usize, usize))
    requires
        1 <= w,
    ensures
        r.0 + r.1 + r.2 == len,
        r.0 == vstd::math::min(len as int, (w - addr % w) as int % (w as int)),
        r.0 < w,
        r.2 < w,
        (r.1 as int) % (w as int) == 0,
        r.1 > 0 ==> (addr + r.0) as int % (w as int) == 0,
{
    let m = addr % w;
    proof {
        if m == 0 {
            assert((w - m) as int % (w as int) == 0) by {
                lemma_mod_multiples_basic(1, w as int);
            }
        } else {
            lemma_small_mod((w - m) as nat, w as nat);
        }
    }
    let pad = if m == 0 {
        0
    } else {
        w - m
    };
    proof {
        lemma_fundamental_div_mod(addr as int, w as int);
        if m != 0 {
            lemma_mod_multiples_basic(addr as int / w as int + 1, w as int);
            assert(addr + pad == (addr as int / w as int + 1) * (w as int)) by (nonlinear_arith)
                requires
                    addr == (w as int) * (addr as int / w as int) + m,
                    pad == w - m,
            ;
        }
    }
    if len <= pad {
        (len, 0, 0)
    } else {
        let rest = len - pad;
        let s = rest % w;
        proof {
            lemma_mod_decreases(rest as nat, w as nat);
        }
        let b = rest - s;
        proof {
            lemma_fundamental_div_mod(rest as int, w as int);
            assert(b == (w as int) * (rest as int / w as int));
            lemma_mod_multiples_basic(rest as int / w as int, w as int);
            assert((rest as int / w as int) * (w as int) == (w as int) * (rest as int / w as int))
                by (nonlinear_arith);
        }
        (pad, b, s)
    }
}

/// The 32-bit repeated pattern: the fill byte in every 8-bit lane, built
/// branch-free by widening the byte and or-ing it with shifted copies of
/// itself, doubling the filled width at each step.
pub fn pattern32(byte: u8) -> (r: u32)
    ensures
        r & 0xff == byte as u32,
        (r >> 8) & 0xff == byte as u32,
        (r >> 16) & 0xff == byte as u32,
        (r >> 24) & 0xff == byte as u32,
{
    let b: u32 = byte as u32;
    let p: u32 = b | (b << 8);
    let r: u32 = p | (p << 16);
    proof {
        assert(r & 0xff == b && (r >> 8) & 0xff == b && (r >> 16) & 0xff == b && (r >> 24) & 0xff
            == b) by (bit_vector)
            requires
                p == b | (b << 8),
                r == p | (p << 16),
                b < 256,
        ;
    }
    r
}

/// The repeated pattern at a full vector width: the fill byte replicated
/// across `w` bytes, built by doubling the pattern until it reaches the
/// target width, as the integer construction does lane-wise.
pub fn replicate(byte: u8, w: usize) -> (p: Vec<u8>)
    requires
        w == 4 || w == 16 || w == 32 || w == 64,
    ensures
        p@.len() == w,
        crate::filled(p@, byte),
{
    let mut p: Vec<u8> = Vec::new();
    p.push(byte);
    while p.len() < w
        invariant
            w == 4 || w == 16 || w == 32 || w == 64,
            p@.len() == 1 || p@.len() == 2 || p@.len() == 4 || p@.len() == 8 || p@.len() == 16
                || p@.len() == 32 || p@.len() == 64,
            p@.len() <= w,
            crate::filled(p@, byte),
        decreases w - p@.len(),
    {
        let n = p.len();
        let mut i: usize = 0;
        while i < n
            invariant
                i <= n,
                p@.len() == n + i,
                n + n <= w,
                crate::filled(p@, byte),
            decreases n - i,
        {
            let b = p[i];
            p.push(b);
            i += 1;
        }
    }
    p
}

/// Narrow fill for small or misaligned regions: byte stores on the edges
/// and 32-bit word stores of the repeated pattern on the word-aligned
/// middle. `addr` is the address of `slice[0]`; the split is made at the
/// address of `slice[lo]`.
pub fn memset_small(slice: &mut Vec<u8>, lo: usize, hi: usize, addr: usize, byte: u8)
    requires
        lo <= hi <= old(slice)@.len(),
        addr + old(slice)@.len() <= usize::MAX,
    ensures
        crate::fill_applied(old(slice)@, final(slice)@, lo as int, hi as int, byte),
{
    let ghost orig = slice@;
    let (p, b, s) = split_for_width(addr + lo, hi - lo, 4);
    fill_range(slice, lo, lo + p, byte);
    let pat = pattern32(byte);
    let b0 = (pat & 0xff) as u8;
    let b1 = ((pat >> 8) & 0xff) as u8;
    let b2 = ((pat >> 16) & 0xff) as u8;
    let b3 = ((pat >> 24) & 0xff) as u8;
    assert(b0 == byte && b1 == byte && b2 == byte && b3 == byte);
    let words = b / 4;
    assert(words * 4 == b);
    let base = lo + p;
    let mut j: usize = 0;
    while j < words
        invariant
            j <= words,
            words * 4 == b,
            base == lo + p,
            lo <= base && base + b <= hi <= slice@.len(),
            slice@.len() == orig.len(),
            b0 == byte && b1 == byte && b2 == byte && b3 == byte,
            crate::fill_applied(orig, slice@, lo as int, base + j * 4, byte),
        decreases words - j,
    {
        let at = base + j * 4;
        slice.set(at, b0);
        slice.set(at + 1, b1);
        slice.set(at + 2, b2);
        slice.set(at + 3, b3);
        j += 1;
    }
    fill_range(slice, base + b, hi, byte);
}

/// One vector store in the model: copies the repeated pattern into
/// `slice[at .. at + pat.len()]` and leaves every other byte alone.
fn write_chunk(slice: &mut Vec<u8>, at: usize, pat: &Vec<u8>)
    requires
        at + pat@.len() <= old(slice)@.len(),
    ensures
        final(slice)@.len() == old(slice)@.len(),
        forall|k: int|
            0 <= k < old(slice)@.len() ==> final(slice)@[k] == (if at <= k < at + pat@.len() {
                pat@[k - at]
            } else {
                old(slice)@[k]
            }),
{
    let ghost orig = slice@;
    let n = pat.len();
    let total = slice.len();
    let mut j: usize = 0;
    while j < n
        invariant
            j <= n,
            n == pat@.len(),
            at + n <= total == slice@.len(),
            slice@.len() == orig.len(),
            forall|k: int|
                0 <= k < orig.len() ==> slice@[k] == (if at <= k < at + j {
                    pat@[k - at]
                } else {
                    orig[k]
                }),
        decreases n - j,
    {
        let v = pat[j];
        slice.set(at + j, v);
        j += 1;
    }
}

/// The shared body of the vector tiers: split the buffer at the vector
/// width, fill the edges (through the narrow word path or the plain byte
/// loop), build the repeated pattern, and fill the aligned body chunk by
/// chunk — four chunks per unrolled iteration, then a remainder loop for
/// the zero to three chunks left over.
fn tier_fill(slice: &mut Vec<u8>, addr: usize, byte: u8, w: usize, narrow_edges: bool)
    requires
        w == 16 || w == 32 || w == 64,
        addr + old(slice)@.len() <= usize::MAX,
    ensures
        final(slice)@.len() == old(slice)@.len(),
        crate::filled(final(slice)@, byte),
{
    let len = slice.len();
    let (p, b, s) = split_for_width(addr, len, w);
    if narrow_edges {
        memset_small(slice, 0, p, addr, byte);
    } else {
        fill_range(slice, 0, p, byte);
    }
    let pat = replicate(byte, w);
    let chunks = b / w;
    assert(chunks * w == b);
    let mut i: usize = 0;
    while i + 3 < chunks
        invariant
            i <= chunks,
            chunks * w == b,
            w == 16 || w == 32 || w == 64,
            p + b + s == len,
            slice@.len() == len,
            pat@.len() == w,
            crate::filled(pat@, byte),
            forall|k: int| 0 <= k < p + i * w ==> slice@[k] == byte,
        decreases chunks - i,
    {
        assert((i + 4) * w <= chunks * w) by (nonlinear_arith)
            requires
                i + 4 <= chunks,
                0 < w,
        ;
        assert(i * w <= (i + 1) * w <= (i + 2) * w <= (i + 3) * w <= (i + 4) * w);
        write_chunk(slice, p + i * w, &pat);
        write_chunk(slice, p + (i + 1) * w, &pat);
        write_chunk(slice, p + (i + 2) * w, &pat);
        write_chunk(slice, p + (i + 3) * w, &pat);
        i += 4;
    }
    while i < chunks
        invariant
            i <= chunks,
            chunks * w == b,
            w == 16 || w == 32 || w == 64,
            p + b + s == len,
            slice@.len() == len,
            pat@.len() == w,
            crate::filled(pat@, byte),
            forall|k: int| 0 <= k < p + i * w ==> slice@[k] == byte,
        decreases chunks - i,
    {
        assert((i + 1) * w <= chunks * w) by (nonlinear_arith)
            requires
                i + 1 <= chunks,
                0 < w,
        ;
        write_chunk(slice, p + i * w, &pat);
        i += 1;
    }
    if narrow_edges {
        memset_small(slice, p + b, len, addr, byte);
    } else {
        fill_range(slice, p + b, len, byte);
    }
}

/// SSE2 tier: 16-byte non-temporal chunks over the aligned body, plain byte
/// fill on the unaligned edges.
pub fn memset_sse2(slice: &mut Vec<u8>, addr: usize, byte: u8)
    requires
        addr + old(slice)@.len() <= usize::MAX,
    ensures
        final(slice)@.len() == old(slice)@.len(),
        crate::filled(final(slice)@, byte),
{
    tier_fill(slice, addr, byte, 16, false);
}

/// AVX tier: 32-byte non-temporal chunks over the aligned body, the narrow
/// word-at-a-time path on the unaligned edges.
pub fn memset_avx(slice: &mut Vec<u8>, addr: usize, byte: u8)
    requires
        addr + old(slice)@.len() <= usize::MAX,
    ensures
        final(slice)@.len() == old(slice)@.len(),
        crate::filled(final(slice)@, byte),
{
    tier_fill(slice, addr, byte, 32, true);
}

/// AVX-512 tier: 64-byte non-temporal chunks over the aligned body, the
/// narrow word-at-a-time path on the unaligned edges.
pub fn memset_avx512f(slice: &mut Vec<u8>, addr: usize, byte: u8)
    requires
        addr + old(slice)@.len() <= usize::MAX,
    ensures
        final(slice)@.len() == old(slice)@.len(),
        crate::filled(final(slice)@, byte),
{
    tier_fill(slice, addr, byte, 64, true);
}

/// The instruction-set tiers, in strict preference order: a wider vector
/// beats a narrower one, and the plain byte loop is always available.
#[derive(Clone, Copy, PartialEq, Eq, Structural, Debug)]
pub enum Tier {
    Baseline,
    Sse2,
    Avx,
    Avx512F,
}

/// The result of probing the CPU once, plus the build-time opt-in for the
/// widest tier. Hardware capability is fixed for the life of a process, so
/// a `Probes` value never changes after detection.
#[derive(Clone, Copy, PartialEq, Eq, Structural, Debug)]
pub struct Probes {
    /// The CPU reports AVX-512 foundation support.
    pub avx512f: bool,
    /// The build opted in to the AVX-512 tier; runtime probing still gates
    /// its actual use.
    pub avx512f_enabled: bool,
    /// The CPU reports AVX support.
    pub avx: bool,
    /// The CPU reports SSE2 support.
    pub sse2: bool,
}

/// The preference order of the tiers: higher rank wins.
pub open spec fn tier_rank(t: Tier) -> int {
    match t {
        Tier::Baseline => 0,
        Tier::Sse2 => 1,
        Tier::Avx => 2,
        Tier::Avx512F => 3,
    }
}

/// Whether a tier may run on the probed machine. The baseline byte loop
/// always may; the widest tier needs both the probe and the build opt-in.
pub open spec fn tier_available(t: Tier, p: Probes) -> bool {
    match t {
        Tier::Baseline => true,
        Tier::Sse2 => p.sse2,
        Tier::Avx => p.avx,
        Tier::Avx512F => p.avx512f && p.avx512f_enabled,
    }
}

/// The tier that feature detection selects: the first supported one, probed
/// widest first.
pub open spec fn chosen_tier(p: Probes) -> Tier {
    if p.avx512f && p.avx512f_enabled {
        Tier::Avx512F
    } else if p.avx {
        Tier::Avx
    } else if p.sse2 {
        Tier::Sse2
    } else {
        Tier::Baseline
    }
}

/// Feature detection: probes in strict preference order, widest first, and
/// returns the first supported tier.
pub fn detect(p: Probes) -> (t: Tier)
    ensures
        t == chosen_tier(p),
{
    if p.avx512f && p.avx512f_enabled {
        Tier::Avx512F
    } else if p.avx {
        Tier::Avx
    } else if p.sse2 {
        Tier::Sse2
    } else {
        Tier::Baseline
    }
}

/// Dispatch is sound and maximal: the detected tier is available on the
/// probed machine, and no available tier ranks higher.
pub proof fn lemma_chosen_tier_is_best(p: Probes)
    ensures
        tier_available(chosen_tier(p), p),
        forall|t: Tier| tier_available(t, p) ==> tier_rank(t) <= tier_rank(chosen_tier(p)),
{
    assert forall|t: Tier| tier_available(t, p) implies tier_rank(t) <= tier_rank(
        chosen_tier(p),
    ) by {
        match t {
            Tier::Baseline => {},
            Tier::Sse2 => {},
            Tier::Avx => {},
            Tier::Avx512F => {},
        }
    }
}

/// The dispatch cache: process-wide state that starts unresolved and holds
/// the detected tier after the first call. Redundant concurrent resolutions
/// are safe because detection is a pure function of the fixed hardware, so
/// every racing writer stores the same tier; the model therefore keeps one
/// cell whose only meaningful write is the first.
pub struct Dispatcher {
    /// `None` until the first call resolves the tier; then always the tier
    /// that detection chose for this machine.
    pub resolved: Option<Tier>,
}

impl Dispatcher {
    /// The cache is consistent with the machine's probes: it is unresolved,
    /// or it holds exactly the tier detection would choose. Once this holds
    /// it keeps holding, because hardware capability cannot change at
    /// runtime.
    pub open spec fn wf(self, p: Probes) -> bool {
        self.resolved is Some ==> self.resolved == Some(chosen_tier(p))
    }

    /// A fresh cache, unresolved, consistent with any machine.
    pub fn new() -> (d: Dispatcher)
        ensures
            d.resolved is None,
            forall|p: Probes| d.wf(p),
    {
        Dispatcher { resolved: None }
    }

    /// Resolve-or-reuse: the first call detects and caches the tier; every
    /// later call reads the cache directly and never re-probes. Either way
    /// the returned tier is the one detection chooses on this machine.
    pub fn resolve(&mut self, p: Probes) -> (t: Tier)
        requires
            old(self).wf(p),
        ensures
            t == chosen_tier(p),
            final(self).resolved == Some(t),
            final(self).wf(p),
    {
        match self.resolved {
            Some(t) => t,
            None => {
                let t = detect(p);
                self.resolved = Some(t);
                t
            },
        }
    }
}

/// The entry point on the vectored architecture: resolves the tier through
/// the dispatch cache and runs it on the buffer. `addr` is the address of
/// `slice[0]`, which decides the alignment split. A store fence must follow
/// the fill before control returns past the platform boundary, whichever
/// tier ran; the fence is a hardware ordering effect with no image in the
/// byte-vector model, so the unverified platform layer issues it.
pub fn memset(d: &mut Dispatcher, probes: Probes, addr: usize, slice: &mut Vec<u8>, byte: u8)
    requires
        old(d).wf(probes),
        addr + old(slice)@.len() <= usize::MAX,
    ensures
        final(slice)@.len() == old(slice)@.len(),
        crate::filled(final(slice)@, byte),
        final(d).resolved == Some(chosen_tier(probes)),
        final(d).wf(probes),
{
    let t = d.resolve(probes);
    match t {
        Tier::Avx512F => memset_avx512f(slice, addr, byte),
        Tier::Avx => memset_avx(slice, addr, byte),
        Tier::Sse2 => memset_sse2(slice, addr, byte),
        Tier::Baseline => crate::fallback(slice, byte),
    }
}

} // verus!

