//! A position-tracked cursor over an input byte buffer.
//!
//! The cursor offers primitive reads and skips, plus a fast forward-search
//! that hands the rest of the buffer to the chunked scanner kernel.  End of
//! input is a recoverable condition: operations that run off the end pin
//! the position to the buffer length and report failure.

use crate::simdsearch::{lemma_scan_window, search_bytes_simd_u8x16};
use crate::simdsearch_ops::{lemma_scan_find_in_range, scan_find, scan_state, SimdSearch};
use vstd::prelude::*;
use vstd::slice::{slice_index_get, slice_subrange};

verus! {

/// A cheap-to-clone view over the input plus a current offset.
#[derive(Clone, Copy)]
pub struct BytesIterator<'a> {
    input: &'a [u8],
    pos: usize,
}

impl<'a> BytesIterator<'a> {
    /// The underlying input bytes.
    pub closed spec fn spec_bytes(&self) -> Seq<u8> {
        self.input@
    }

    /// The current offset.  It may exceed the buffer length after a blind
    /// `skip`; every read pins it back to the length.
    pub closed spec fn spec_pos(&self) -> int {
        self.pos as int
    }


    /// The offset is never negative.
    pub proof fn lemma_pos_nonneg(&self)
        ensures
            0 <= self.spec_pos(),
    {
    }

    pub fn new(input: &'a [u8]) -> (r: BytesIterator<'a>)
        ensures
            r.spec_bytes() == input@,
            r.spec_pos() == 0,
    {
        BytesIterator { input, pos: 0 }
    }

    /// Advance the offset by `count` without looking at the bytes.
    pub fn skip(&mut self, count: usize)
        requires
            old(self).spec_pos() + count <= usize::MAX,
        ensures
            final(self).spec_bytes() == old(self).spec_bytes(),
            final(self).spec_pos() == old(self).spec_pos() + count,
    {
        self.pos = self.pos + count;
    }

    /// Advance to the first byte at or after the current offset on which
    /// `predicate` answers true, leaving the offset on that byte; report
    /// failure at the end of the input, or when no byte qualifies.
    pub fn skip_until<P: Fn(u8) -> bool>(&mut self, predicate: P) -> (r: Result<(), ()>)
        requires
            forall|b: u8| call_requires(predicate, (b,)),
        ensures
            final(self).spec_bytes() == old(self).spec_bytes(),
            old(self).spec_pos() >= old(self).spec_bytes().len() ==> r is Err && final(self).spec_pos()
                == old(self).spec_pos(),
            old(self).spec_pos() < old(self).spec_bytes().len() && r is Ok ==> {
                &&& old(self).spec_pos() <= final(self).spec_pos() < old(self).spec_bytes().len()
                &&& call_ensures(
                    predicate,
                    (old(self).spec_bytes()[final(self).spec_pos()],),
                    true,
                )
                &&& forall|k: int|
                    old(self).spec_pos() <= k < final(self).spec_pos() ==> call_ensures(
                        predicate,
                        (old(self).spec_bytes()[k],),
                        false,
                    )
            },
            old(self).spec_pos() < old(self).spec_bytes().len() && r is Err ==> {
                &&& final(self).spec_pos() == old(self).spec_bytes().len()
                &&& forall|k: int|
                    old(self).spec_pos() <= k < old(self).spec_bytes().len() ==> call_ensures(
                        predicate,
                        (old(self).spec_bytes()[k],),
                        false,
                    )
            },
    {
        let len = self.input.len();
        if self.pos >= len {
            return Err(());
        }
        let mut i: usize = self.pos;
        while i < len
            invariant
                old(self).spec_pos() <= i <= len,
                len == old(self).spec_bytes().len(),
                *self == *old(self),
                forall|b: u8| call_requires(predicate, (b,)),
                forall|k: int|
                    old(self).spec_pos() <= k < i ==> call_ensures(
                        predicate,
                        (old(self).spec_bytes()[k],),
                        false,
                    ),
            decreases len - i,
        {
            let c = *slice_index_get(self.input, i);
            if predicate(c) {
                self.pos = i;
                return Ok(());
            }
            i += 1;
        }
        self.pos = len;
        Err(())
    }

    /// Like `skip_until`, but leave the offset one past the matching byte
    /// and hand the byte back.
    pub fn skip_until_and_get<P: Fn(u8) -> bool>(&mut self, predicate: P) -> (r: Result<u8, ()>)
        requires
            forall|b: u8| call_requires(predicate, (b,)),
        ensures
            final(self).spec_bytes() == old(self).spec_bytes(),
            old(self).spec_pos() >= old(self).spec_bytes().len() ==> r is Err && final(self).spec_pos()
                == old(self).spec_pos(),
            old(self).spec_pos() < old(self).spec_bytes().len() && r is Ok ==> {
                &&& old(self).spec_pos() < final(self).spec_pos() <= old(self).spec_bytes().len()
                &&& r == Ok::<u8, ()>(old(self).spec_bytes()[final(self).spec_pos() - 1])
                &&& call_ensures(
                    predicate,
                    (old(self).spec_bytes()[final(self).spec_pos() - 1],),
                    true,
                )
                &&& forall|k: int|
                    old(self).spec_pos() <= k < final(self).spec_pos() - 1 ==> call_ensures(
                        predicate,
                        (old(self).spec_bytes()[k],),
                        false,
                    )
            },
            old(self).spec_pos() < old(self).spec_bytes().len() && r is Err ==> {
                &&& final(self).spec_pos() == old(self).spec_bytes().len()
                &&& forall|k: int|
                    old(self).spec_pos() <= k < old(self).spec_bytes().len() ==> call_ensures(
                        predicate,
                        (old(self).spec_bytes()[k],),
                        false,
                    )
            },
    {
        let len = self.input.len();
        if self.pos >= len {
            return Err(());
        }
        let mut i: usize = self.pos;
        while i < len
            invariant
                old(self).spec_pos() <= i <= len,
                len == old(self).spec_bytes().len(),
                *self == *old(self),
                forall|b: u8| call_requires(predicate, (b,)),
                forall|k: int|
                    old(self).spec_pos() <= k < i ==> call_ensures(
                        predicate,
                        (old(self).spec_bytes()[k],),
                        false,
                    ),
            decreases len - i,
        {
            let c = *slice_index_get(self.input, i);
            if predicate(c) {
                self.pos = i + 1;
                return Ok(c);
            }
            i += 1;
        }
        self.pos = len;
        Err(())
    }

    /// Advance past the first byte matching the scanner predicate, handing
    /// the byte back, with the search delegated to the chunked kernel.  The
    /// predicate state reflects every byte examined up to and including the
    /// match, exactly as a byte-by-byte scan would leave it.
    pub fn skip_fast_until_and_get<C: SimdSearch<S>, S>(
        &mut self,
        state: &mut S,
        check: &C,
    ) -> (r: Result<u8, ()>)
        ensures
            final(self).spec_bytes() == old(self).spec_bytes(),
            old(self).spec_pos() >= old(self).spec_bytes().len() ==> r is Err && final(self).spec_pos()
                == old(self).spec_pos() && *final(state) == *old(state),
            old(self).spec_pos() < old(self).spec_bytes().len() ==> {
                &&& *final(state) == scan_state(
                    check,
                    *old(state),
                    old(self).spec_bytes(),
                    old(self).spec_pos(),
                )
                &&& match scan_find(
                    check,
                    *old(state),
                    old(self).spec_bytes(),
                    old(self).spec_pos(),
                ) {
                    Some(j) => r == Ok::<u8, ()>(old(self).spec_bytes()[j]) && final(self).spec_pos()
                        == j + 1,
                    None => r is Err && final(self).spec_pos() == old(self).spec_bytes().len(),
                }
            },
    {
        let len = self.input.len();
        if self.pos >= len {
            return Err(());
        }
        let rest = slice_subrange(self.input, self.pos, len);
        let found = search_bytes_simd_u8x16(rest, state, check);
        proof {
            lemma_scan_window(check, *old(state), self.input@, self.pos as int, len as int, 0);
            lemma_scan_find_in_range(check, *old(state), rest@, 0);
        }
        match found {
            Some(i) => {
                self.pos = self.pos + i + 1;
                Ok(*slice_index_get(self.input, self.pos - 1))
            },
            None => {
                self.pos = len;
                Err(())
            },
        }
    }

    /// Read the byte at the current offset and advance, or answer 0 at the
    /// end of the input without moving.
    pub fn read_or_null(&mut self) -> (c: u8)
        ensures
            final(self).spec_bytes() == old(self).spec_bytes(),
            old(self).spec_pos() >= old(self).spec_bytes().len() ==> c == 0 && final(self).spec_pos()
                == old(self).spec_pos(),
            old(self).spec_pos() < old(self).spec_bytes().len() ==> c == old(self).spec_bytes()[old(self).spec_pos()]
                && final(self).spec_pos() == old(self).spec_pos() + 1,
    {
        if self.pos >= self.input.len() {
            return 0;
        }
        let c = *slice_index_get(self.input, self.pos);
        self.pos = self.pos + 1;
        c
    }

    /// Read a fixed-length run of bytes and advance past it, or pin the
    /// offset to the end of the input when fewer than `SIZE` bytes remain.
    pub fn read_multi<const SIZE: usize>(&mut self) -> (r: Result<&'a [u8], ()>)
        ensures
            final(self).spec_bytes() == old(self).spec_bytes(),
            old(self).spec_pos() + SIZE > old(self).spec_bytes().len() ==> r is Err
                && final(self).spec_pos() == old(self).spec_bytes().len(),
            old(self).spec_pos() + SIZE <= old(self).spec_bytes().len() ==> {
                &&& match r {
                    Ok(v) => v@ == old(self).spec_bytes().subrange(
                        old(self).spec_pos(),
                        old(self).spec_pos() + SIZE,
                    ),
                    Err(_) => false,
                }
                &&& final(self).spec_pos() == old(self).spec_pos() + SIZE
            },
    {
        let len = self.input.len();
        if SIZE > len || self.pos > len - SIZE {
            self.pos = len;
            return Err(());
        }
        let inp = self.input;
        let v = slice_subrange(inp, self.pos, self.pos + SIZE);
        self.pos = self.pos + SIZE;
        Ok(v)
    }

    /// The current offset.
    pub fn position(&self) -> (r: usize)
        ensures
            r == self.spec_pos(),
    {
        self.pos
    }
}

} // verus!
