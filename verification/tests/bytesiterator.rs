use jsonscan::bytesiterator::BytesIterator;
use jsonscan::simdsearch_ops::{SimdSearchEq, SimdSearchOr};

#[test]
fn bytesiterator_read_and_position() {
    let mut it = BytesIterator::new(b"abc");
    assert_eq!(it.position(), 0);
    assert_eq!(it.read_or_null(), b'a');
    assert_eq!(it.read_or_null(), b'b');
    assert_eq!(it.position(), 2);
    assert_eq!(it.read_or_null(), b'c');
    // Past the end the cursor answers 0 and stays put.
    assert_eq!(it.read_or_null(), 0);
    assert_eq!(it.read_or_null(), 0);
    assert_eq!(it.position(), 3);
}

#[test]
fn bytesiterator_skip() {
    let mut it = BytesIterator::new(b"abcdef");
    it.skip(4);
    assert_eq!(it.position(), 4);
    assert_eq!(it.read_or_null(), b'e');
}

#[test]
fn bytesiterator_skip_until() {
    let mut it = BytesIterator::new(b"aaabaa");
    assert_eq!(it.skip_until(|c| c == b'b'), Ok(()));
    assert_eq!(it.position(), 3);
    // No further byte qualifies: the cursor pins to the end.
    let mut it2 = BytesIterator::new(b"aaa");
    assert_eq!(it2.skip_until(|c| c == b'b'), Err(()));
    assert_eq!(it2.position(), 3);
}

#[test]
fn bytesiterator_skip_until_and_get() {
    let mut it = BytesIterator::new(b"aaabaa");
    assert_eq!(it.skip_until_and_get(|c| c == b'b'), Ok(b'b'));
    assert_eq!(it.position(), 4);
}

#[test]
fn bytesiterator_skip_fast_until_and_get() {
    let input = b"aaaaaaaaaaaaaaaaaaaaaaaaaaaaaaaaaaaaxaaay";
    let mut it = BytesIterator::new(input);
    let pred = SimdSearchOr::new(SimdSearchEq::new(b'x'), SimdSearchEq::new(b'y'));
    assert_eq!(it.skip_fast_until_and_get(&mut (), &pred), Ok(b'x'));
    assert_eq!(it.position(), 37);
    assert_eq!(it.skip_fast_until_and_get(&mut (), &pred), Ok(b'y'));
    assert_eq!(it.position(), 41);
    assert_eq!(it.skip_fast_until_and_get(&mut (), &pred), Err(()));
    assert_eq!(it.position(), 41);
}

#[test]
fn bytesiterator_read_multi() {
    let mut it = BytesIterator::new(b"abcdef");
    let head = it.read_multi::<4>().unwrap();
    assert_eq!(head, b"abcd");
    assert_eq!(it.position(), 4);
    // Fewer than requested bytes remain: failure pins the cursor to the
    // end.
    assert_eq!(it.read_multi::<4>(), Err(()));
    assert_eq!(it.position(), 6);
}
