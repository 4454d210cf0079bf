use jsonscan::simdsearch::search_bytes_simd_u8x16;
use jsonscan::simdsearch_ops::{
    CountAndStop, CountState, MatchCounter, PassThrough, SimdSearch, SimdSearchDualExec,
    SimdSearchEq, SimdSearchExec, SimdSearchNot, SimdSearchOr, SimdSearchRange,
};

fn check_one<C: SimdSearch<S>, S>(input: &str, state: &mut S, check: &C, expected: Option<usize>)
where
    S: Clone + PartialEq + std::fmt::Debug,
{
    let input_bytes = input.as_bytes();

    let base_state = state.clone();
    let r = search_bytes_simd_u8x16(input_bytes, state, check);
    assert_eq!(r, expected);

    for i in 0..64 {
        let mut before = vec![b'0'; i];
        let mut after = vec![b'0'; 64 - i];
        let mut tinput = Vec::with_capacity(input.len() + 64);
        tinput.append(&mut before);
        tinput.extend(input_bytes);
        tinput.append(&mut after);

        let mut tstate = base_state.clone();
        let tr = search_bytes_simd_u8x16(&tinput[..], &mut tstate, check);
        match expected {
            Some(expected) => assert_eq!(tr, Some(expected + i), "i={}", i),
            None => assert_eq!(r, None),
        }
    }
}

#[test]
fn simdsearch_find() {
    check_one("0000000010000000", &mut (), &SimdSearchEq::new(b'1'), Some(8));
}

#[test]
fn simdsearch_count_and_find() {
    let mut state = CountState { num: 0 };

    check_one(
        "0010000010002010",
        &mut state,
        &SimdSearchDualExec::new(SimdSearchEq::new(b'1'), SimdSearchEq::new(b'2'), CountAndStop),
        Some(12),
    );
    assert_eq!(state.num, 2);
}

#[test]
fn simdsearch_count() {
    let mut state = CountState { num: 0 };

    check_one(
        "0010000010000010",
        &mut state,
        &SimdSearchExec::new(SimdSearchEq::new(b'1'), MatchCounter),
        None,
    );
    assert_eq!(state.num, 3);
}

#[test]
fn simdsearch_brett() {
    assert_eq!(
        search_bytes_simd_u8x16(
            "000000000000000000000001000000000000000000000000".as_bytes(),
            &mut (),
            &SimdSearchExec::new(SimdSearchEq::new(b'1'), PassThrough)
        ),
        Some(23)
    );
}

#[test]
fn simdsearch_empty_input() {
    assert_eq!(search_bytes_simd_u8x16(b"", &mut (), &SimdSearchEq::new(b'1')), None);
}

#[test]
fn simdsearch_short_input_scalar_path() {
    // Shorter than one chunk: the scalar fallback handles everything.
    assert_eq!(search_bytes_simd_u8x16(b"00010", &mut (), &SimdSearchEq::new(b'1')), Some(3));
    assert_eq!(search_bytes_simd_u8x16(b"00000", &mut (), &SimdSearchEq::new(b'1')), None);
}

#[test]
fn simdsearch_chunk_boundaries() {
    // Matches on either side of the 16-byte chunk boundary and in the
    // unaligned tail come back with the same offsets as a scalar scan.
    let mut input = vec![b'0'; 40];
    for hit in [0usize, 15, 16, 31, 32, 39] {
        input.iter_mut().for_each(|b| *b = b'0');
        input[hit] = b'1';
        assert_eq!(
            search_bytes_simd_u8x16(&input, &mut (), &SimdSearchEq::new(b'1')),
            Some(hit),
            "hit={}",
            hit
        );
    }
}

#[test]
fn simdsearch_state_threads_across_chunks() {
    // 40 bytes: counted matches accumulate across chunk borders exactly
    // as a byte-by-byte scan would count them.
    let input = b"0100000000000001010000000000000001000000";
    let mut state = CountState { num: 0 };
    let r = search_bytes_simd_u8x16(input, &mut state, &SimdSearchExec::new(SimdSearchEq::new(b'1'), MatchCounter));
    assert_eq!(r, None);
    assert_eq!(state.num, 4);
}

#[test]
fn simdsearch_range_predicate() {
    assert_eq!(
        search_bytes_simd_u8x16(b"zzzAzzz", &mut (), &SimdSearchRange::new(b'A', b'Z')),
        Some(3)
    );
    assert_eq!(search_bytes_simd_u8x16(b"zzzz", &mut (), &SimdSearchRange::new(b'A', b'Z')), None);
}

#[test]
fn simdsearch_not_and_or() {
    // The first byte that is not a space or a tab.
    let pred = SimdSearchNot::new(SimdSearchOr::new(SimdSearchEq::new(b' '), SimdSearchEq::new(b'\t')));
    assert_eq!(search_bytes_simd_u8x16(b" \t \t x", &mut (), &pred), Some(5));
}

#[test]
fn simdsearch_or_eq_fluent() {
    let pred = SimdSearchEq::new(b'a').or_eq(b'b');
    assert_eq!(search_bytes_simd_u8x16(b"zzbz", &mut (), &pred), Some(2));
}

#[test]
fn simdsearch_or_range_fluent() {
    let pred = SimdSearchEq::new(b'-').or_range(b'0', b'9');
    assert_eq!(search_bytes_simd_u8x16(b"abc7", &mut (), &pred), Some(3));
}

#[test]
fn simdsearch_dualexec_stops_with_count() {
    // A dual side effect counting one marker and stopping on another,
    // crossing a chunk boundary: state reflects bytes up to the match.
    let input = b"00100000000000000001000000000002";
    let mut state = CountState { num: 0 };
    let r = search_bytes_simd_u8x16(
        input,
        &mut state,
        &SimdSearchDualExec::new(SimdSearchEq::new(b'1'), SimdSearchEq::new(b'2'), CountAndStop),
    );
    assert_eq!(r, Some(31));
    assert_eq!(state.num, 2);
}
