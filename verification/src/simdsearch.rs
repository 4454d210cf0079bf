//! The chunked byte-scanner kernel.
//!
//! `search_bytes_simd_u8x16` returns the offset of the first byte of a
//! buffer that satisfies a predicate, or nothing.  Short buffers are walked
//! byte by byte; longer ones are split into 16-byte chunks starting at
//! offsets that are multiples of the chunk width, evaluated through the
//! predicate's chunk path, with the remaining tail walked byte by byte.
//! Whatever the strategy, the result and the final predicate state are
//! exactly those of a plain byte-by-byte scan with the same predicate and
//! the same initial state.

use crate::simdsearch_ops::{
    for_simd, lemma_scan_find_in_range, scan_find, scan_state, SimdArr, SimdSearch,
};
use vstd::prelude::*;
use vstd::slice::slice_index_get;

verus! {

/// Scanning a window of `data` visits the same bytes with the same states
/// as scanning `data` itself from the window's start: a match in the window
/// is a match of the whole scan, and a window scanned without a match hands
/// its final state to the rest of the buffer.
pub proof fn lemma_scan_window<C: SimdSearch<S>, S>(
    c: &C,
    s: S,
    data: Seq<u8>,
    off: int,
    to: int,
    i: int,
)
    requires
        0 <= off <= to <= data.len(),
        0 <= i <= to - off,
    ensures
        ({
            let w = data.subrange(off, to);
            match scan_find(c, s, w, i) {
                Some(j) => scan_find(c, s, data, off + i) == Some(off + j) && scan_state(
                    c,
                    s,
                    data,
                    off + i,
                ) == scan_state(c, s, w, i),
                None => scan_find(c, s, data, off + i) == scan_find(
                    c,
                    scan_state(c, s, w, i),
                    data,
                    to,
                ) && scan_state(c, s, data, off + i) == scan_state(
                    c,
                    scan_state(c, s, w, i),
                    data,
                    to,
                ),
            }
        }),
    decreases to - off - i,
{
    let w = data.subrange(off, to);
    if i < to - off {
        if !c.step_match(s, w[i]) {
            lemma_scan_window(c, c.step_state(s, w[i]), data, off, to, i + 1);
        }
    }
}

/// Copy one 16-byte chunk out of the buffer.
fn read_chunk(data: &[u8], off: usize) -> (chunk: SimdArr)
    requires
        off + 16 <= data@.len(),
        data@.len() <= usize::MAX,
    ensures
        chunk@ == data@.subrange(off as int, off as int + 16),
{
    let mut chunk: SimdArr = [0u8;16];
    let mut j: usize = 0;
    while j < 16
        invariant
            off + 16 <= data@.len(),
            data@.len() <= usize::MAX,
            j <= 16,
            forall|t: int| 0 <= t < j ==> chunk@[t] == data@[off + t],
        decreases 16 - j,
    {
        chunk[j] = *slice_index_get(data, off + j);
        j += 1;
    }
    proof {
        assert(chunk@ =~= data@.subrange(off as int, off as int + 16));
    }
    chunk
}

/// Walk the window `[from, to)` byte by byte through the predicate's
/// single-byte path, stopping at the first match.
fn search_range_scalar<C: SimdSearch<S>, S>(
    data: &[u8],
    from: usize,
    to: usize,
    state: &mut S,
    check: &C,
) -> (r: Option<usize>)
    requires
        from <= to <= data@.len(),
    ensures
        ({
            let w = data@.subrange(from as int, to as int);
            &&& match scan_find(check, *old(state), w, 0) {
                Some(j) => r == Some((from + j) as usize),
                None => r is None,
            }
            &&& *final(state) == scan_state(check, *old(state), w, 0)
        }),
{
    let ghost w = data@.subrange(from as int, to as int);
    let mut i: usize = from;
    while i < to
        invariant
            from <= i <= to <= data@.len(),
            w == data@.subrange(from as int, to as int),
            scan_find(check, *old(state), w, 0) == scan_find(check, *state, w, i - from),
            scan_state(check, *old(state), w, 0) == scan_state(check, *state, w, i - from),
        decreases to - i,
    {
        let b = slice_index_get(data, i);
        let hit = check.for_test(state, b);
        if hit {
            return Some(i);
        }
        i += 1;
    }
    None
}

/// Find the offset of the first byte of `data` that satisfies `check`,
/// threading `state` through every byte examined.  The result and the final
/// state are exactly those of a byte-by-byte scan of the whole buffer: the
/// chunked interior and the scalar edges agree lane for lane with the
/// single-byte path.
#[verifier::loop_isolation(false)]
pub fn search_bytes_simd_u8x16<C: SimdSearch<S>, S>(
    data: &[u8],
    state: &mut S,
    check: &C,
) -> (r: Option<usize>)
    ensures
        match scan_find(check, *old(state), data@, 0) {
            Some(j) => r == Some(j as usize),
            None => r is None,
        },
        *final(state) == scan_state(check, *old(state), data@, 0),
{
    let len = data.len();
    let mut off: usize = 0;
    while len - off >= 16
        invariant
            off <= len,
            len == data@.len(),
            scan_find(check, *old(state), data@, 0) == scan_find(check, *state, data@, off as int),
            scan_state(check, *old(state), data@, 0) == scan_state(
                check,
                *state,
                data@,
                off as int,
            ),
        decreases len - off,
    {
        let chunk = read_chunk(data, off);
        let ghost pre = *state;
        let mask = for_simd(check, state, &chunk);
        let mut lane: usize = 0;
        while lane < 16
            invariant
                lane <= 16,
                off + 16 <= len == data@.len(),
                forall|j: int| 0 <= j < lane ==> !mask@[j],
                forall|j: int|
                    0 <= j < 16 ==> (mask@[j] <==> scan_find(check, pre, chunk@, 0) == Some(j)),
            decreases 16 - lane,
        {
            if mask[lane] {
                proof {
                    assert(mask@[lane as int]);
                    assert(scan_find(check, pre, chunk@, 0) == Some(lane as int));
                    lemma_scan_window(check, pre, data@, off as int, off as int + 16, 0);
                }
                return Some(off + lane);
            }
            lane += 1;
        }
        proof {
            lemma_scan_find_in_range(check, pre, chunk@, 0);
            if let Some(j0) = scan_find(check, pre, chunk@, 0) {
                assert(0 <= j0 < 16);
                assert(!mask@[j0]);
                assert(mask@[j0]);
            }
            lemma_scan_window(check, pre, data@, off as int, off as int + 16, 0);
        }
        off += 16;
    }
    let ghost mid = *state;
    let r = search_range_scalar(data, off, len, state, check);
    proof {
        lemma_scan_window(check, mid, data@, off as int, len as int, 0);
    }
    r
}

} // verus!
