//! Composable byte-search predicates.
//!
//! A predicate exposes two semantically identical evaluation paths: one over
//! a single byte (`for_test`) and one over a fixed-width chunk of bytes
//! (`for_simd`) returning a per-lane boolean mask.  Both thread a
//! caller-provided state value through every evaluation, so predicates can
//! carry side effects such as counters or nesting depths.
//!
//! The meaning of a predicate is pinned down by two spec functions,
//! `step_state` and `step_match`: evaluating one byte first moves the state
//! and then reports whether the byte matched under the incoming state.  The
//! chunk evaluation processes lanes in ascending order and stops evolving
//! the state at the first matching lane, so its state reflects every byte
//! examined up to and including the match.

use core::marker::PhantomData;
use vstd::prelude::*;

verus! {

/// The fixed chunk width of the wide evaluation path, in bytes.
pub type SimdArr = [u8; 16];

/// A per-lane boolean mask produced by the wide evaluation path.
pub type SimdMask = [bool; 16];

/// A composable byte-search predicate over a caller-owned state `S`.
pub trait SimdSearch<S>: Sized {
    /// The state after one byte has been examined.
    spec fn step_state(&self, s: S, v: u8) -> S;

    /// Whether the byte matches, judged under the incoming state.
    spec fn step_match(&self, s: S, v: u8) -> bool;

    /// Evaluate the predicate on a single byte, threading the state.
    fn for_test(&self, s: &mut S, v: &u8) -> (m: bool)
        ensures
            *final(s) == self.step_state(*old(s), *v),
            m == self.step_match(*old(s), *v),
    ;

    /// Shorthand for `SimdSearchOr::new` with an equality predicate.
    fn or_eq(self, v: u8) -> (r: SimdSearchOr<Self, SimdSearchEq<S>, S>)
        ensures
            r.left == self,
            r.right.needle == v,
    {
        SimdSearchOr::new(self, SimdSearchEq::new(v))
    }

    /// Shorthand for `or` with an inclusive byte-range predicate.
    fn or_range(self, start: u8, end: u8) -> (r: SimdSearchOr<Self, SimdSearchRange<S>, S>)
        ensures
            r.left == self,
            r.right.start == start,
            r.right.end == end,
    {
        SimdSearchOr::new(self, SimdSearchRange::new(start, end))
    }
}

/// The index of the first byte at or after `i` that matches predicate `c`,
/// threading the state byte by byte, or `None` when no byte matches.
pub open spec fn scan_find<C: SimdSearch<S>, S>(c: &C, s: S, bytes: Seq<u8>, i: int) -> Option<
    int,
>
    decreases bytes.len() - i,
{
    if i < 0 || i >= bytes.len() {
        None
    } else if c.step_match(s, bytes[i]) {
        Some(i)
    } else {
        scan_find(c, c.step_state(s, bytes[i]), bytes, i + 1)
    }
}

/// A successful scan always points at a byte of the buffer: the found index
/// lies between the start of the scan and the end of the bytes.
pub proof fn lemma_scan_find_in_range<C: SimdSearch<S>, S>(c: &C, s: S, bytes: Seq<u8>, i: int)
    requires
        0 <= i,
    ensures
        scan_find(c, s, bytes, i) matches Some(j) ==> i <= j < bytes.len(),
    decreases bytes.len() - i,
{
    if i < bytes.len() && !c.step_match(s, bytes[i]) {
        lemma_scan_find_in_range(c, c.step_state(s, bytes[i]), bytes, i + 1);
    }
}

/// The predicate state after scanning from `i`: every byte up to and
/// including the first match has been folded in, or every byte when no byte
/// matches.
pub open spec fn scan_state<C: SimdSearch<S>, S>(c: &C, s: S, bytes: Seq<u8>, i: int) -> S
    decreases bytes.len() - i,
{
    if i < 0 || i >= bytes.len() {
        s
    } else {
        let s1 = c.step_state(s, bytes[i]);
        if c.step_match(s, bytes[i]) {
            s1
        } else {
            scan_state(c, s1, bytes, i + 1)
        }
    }
}

/// Evaluate a predicate on one chunk, lane by lane in ascending order.  The
/// mask singles out the first matching lane and the state reflects every
/// byte examined up to the match (or the whole chunk when none matches), so
/// the chunk path agrees lane for lane with the single-byte path.
pub fn for_simd<C: SimdSearch<S>, S>(check: &C, s: &mut S, v: &SimdArr) -> (m: SimdMask)
    ensures
        forall|j: int| 0 <= j < 16 ==> (m@[j] <==> scan_find(check, *old(s), v@, 0) == Some(j)),
        *final(s) == scan_state(check, *old(s), v@, 0),
{
    let mut m: SimdMask = [false;16];
    let mut i: usize = 0;
    while i < 16
        invariant
            0 <= i <= 16,
            forall|j: int| 0 <= j < 16 ==> !m@[j],
            scan_find(check, *old(s), v@, 0) == scan_find(check, *s, v@, i as int),
            scan_state(check, *old(s), v@, 0) == scan_state(check, *s, v@, i as int),
        decreases 16 - i,
    {
        let hit = check.for_test(s, &v[i]);
        if hit {
            m[i] = true;
            return m;
        }
        i += 1;
    }
    m
}

/// Matches when either side matches; evaluates the left side first and
/// always evaluates both, so side effects on either side are never lost.
pub struct SimdSearchOr<X, Y, S> {
    pub left: X,
    pub right: Y,
    pub phantom: PhantomData<S>,
}

impl<X, Y, S> SimdSearchOr<X, Y, S> {
    pub fn new(left: X, right: Y) -> (r: Self)
        ensures
            r.left == left,
            r.right == right,
    {
        Self { left, right, phantom: PhantomData }
    }
}

impl<X: SimdSearch<S>, Y: SimdSearch<S>, S> SimdSearch<S> for SimdSearchOr<X, Y, S> {
    open spec fn step_state(&self, s: S, v: u8) -> S {
        self.right.step_state(self.left.step_state(s, v), v)
    }

    open spec fn step_match(&self, s: S, v: u8) -> bool {
        self.left.step_match(s, v) || self.right.step_match(self.left.step_state(s, v), v)
    }

    fn for_test(&self, s: &mut S, v: &u8) -> (m: bool) {
        let ml = self.left.for_test(s, v);
        let mr = self.right.for_test(s, v);
        ml || mr
    }
}

/// Inverts the verdict of the wrapped predicate; state still flows through.
pub struct SimdSearchNot<X, S> {
    pub left: X,
    pub phantom: PhantomData<S>,
}

impl<X, S> SimdSearchNot<X, S> {
    pub fn new(left: X) -> (r: Self)
        ensures
            r.left == left,
    {
        Self { left, phantom: PhantomData }
    }
}

impl<X: SimdSearch<S>, S> SimdSearch<S> for SimdSearchNot<X, S> {
    open spec fn step_state(&self, s: S, v: u8) -> S {
        self.left.step_state(s, v)
    }

    open spec fn step_match(&self, s: S, v: u8) -> bool {
        !self.left.step_match(s, v)
    }

    fn for_test(&self, s: &mut S, v: &u8) -> (m: bool) {
        !self.left.for_test(s, v)
    }
}

/// Matches exactly one byte value; stateless.
pub struct SimdSearchEq<S> {
    pub needle: u8,
    pub phantom: PhantomData<S>,
}

impl<S> SimdSearchEq<S> {
    pub fn new(needle: u8) -> (r: Self)
        ensures
            r.needle == needle,
    {
        Self { needle, phantom: PhantomData }
    }
}

impl<S> SimdSearch<S> for SimdSearchEq<S> {
    open spec fn step_state(&self, s: S, v: u8) -> S {
        s
    }

    open spec fn step_match(&self, s: S, v: u8) -> bool {
        v == self.needle
    }

    fn for_test(&self, s: &mut S, v: &u8) -> (m: bool) {
        *v == self.needle
    }
}

/// Matches any byte in the inclusive range `start ..= end`; stateless.
pub struct SimdSearchRange<S> {
    pub start: u8,
    pub end: u8,
    pub phantom: PhantomData<S>,
}

impl<S> SimdSearchRange<S> {
    pub fn new(start: u8, end: u8) -> (r: Self)
        ensures
            r.start == start,
            r.end == end,
    {
        Self { start, end, phantom: PhantomData }
    }
}

impl<S> SimdSearch<S> for SimdSearchRange<S> {
    open spec fn step_state(&self, s: S, v: u8) -> S {
        s
    }

    open spec fn step_match(&self, s: S, v: u8) -> bool {
        self.start <= v && v <= self.end
    }

    fn for_test(&self, s: &mut S, v: &u8) -> (m: bool) {
        self.start <= *v && *v <= self.end
    }
}

/// A per-byte side effect attached to a predicate by `SimdSearchExec`: it
/// sees whether the byte matched, may move the state, and decides the final
/// verdict for the byte.
pub trait ExecFn<S>: Sized {
    /// The state after the side effect has run.
    spec fn next_state(&self, s: S, m: bool) -> S;

    /// The verdict reported for the byte.
    spec fn next_match(&self, s: S, m: bool) -> bool;

    /// Run the side effect for one byte whose inner verdict was `m`.
    fn call(&self, s: &mut S, m: bool) -> (r: bool)
        ensures
            *final(s) == self.next_state(*old(s), m),
            r == self.next_match(*old(s), m),
    ;
}

/// Evaluates the inner predicate, then runs a side effect that observes the
/// verdict, updates the state, and decides the final verdict.
pub struct SimdSearchExec<X, FN, S> {
    pub left: X,
    pub func: FN,
    pub phantom: PhantomData<S>,
}

impl<X, FN, S> SimdSearchExec<X, FN, S> {
    pub fn new(left: X, func: FN) -> (r: Self)
        ensures
            r.left == left,
            r.func == func,
    {
        Self { left, func, phantom: PhantomData }
    }
}

impl<X: SimdSearch<S>, FN: ExecFn<S>, S> SimdSearch<S> for SimdSearchExec<X, FN, S> {
    open spec fn step_state(&self, s: S, v: u8) -> S {
        self.func.next_state(self.left.step_state(s, v), self.left.step_match(s, v))
    }

    open spec fn step_match(&self, s: S, v: u8) -> bool {
        self.func.next_match(self.left.step_state(s, v), self.left.step_match(s, v))
    }

    fn for_test(&self, s: &mut S, v: &u8) -> (m: bool) {
        let ml = self.left.for_test(s, v);
        self.func.call(s, ml)
    }
}

/// A per-byte side effect attached to a pair of predicates by
/// `SimdSearchDualExec`: it sees both verdicts for the same byte.
pub trait DualExecFn<S>: Sized {
    /// The state after the side effect has run.
    spec fn next_state(&self, s: S, m1: bool, m2: bool) -> S;

    /// The verdict reported for the byte.
    spec fn next_match(&self, s: S, m1: bool, m2: bool) -> bool;

    /// Run the side effect for one byte whose inner verdicts were `m1`, `m2`.
    fn call(&self, s: &mut S, m1: bool, m2: bool) -> (r: bool)
        ensures
            *final(s) == self.next_state(*old(s), m1, m2),
            r == self.next_match(*old(s), m1, m2),
    ;
}

/// Evaluates two predicates on each byte (left first), then runs a side
/// effect that observes both verdicts and decides the final verdict.  Use:
/// increment a depth on one set of bytes, decrement on another, and stop
/// when the depth reaches zero.
pub struct SimdSearchDualExec<X, Y, FN, S> {
    pub left: X,
    pub left2: Y,
    pub func: FN,
    pub phantom: PhantomData<S>,
}

impl<X, Y, FN, S> SimdSearchDualExec<X, Y, FN, S> {
    pub fn new(left: X, left2: Y, func: FN) -> (r: Self)
        ensures
            r.left == left,
            r.left2 == left2,
            r.func == func,
    {
        Self { left, left2, func, phantom: PhantomData }
    }
}

impl<X: SimdSearch<S>, Y: SimdSearch<S>, FN: DualExecFn<S>, S> SimdSearch<S> for SimdSearchDualExec<
    X,
    Y,
    FN,
    S,
> {
    open spec fn step_state(&self, s: S, v: u8) -> S {
        let s1 = self.left.step_state(s, v);
        let s2 = self.left2.step_state(s1, v);
        self.func.next_state(s2, self.left.step_match(s, v), self.left2.step_match(s1, v))
    }

    open spec fn step_match(&self, s: S, v: u8) -> bool {
        let s1 = self.left.step_state(s, v);
        let s2 = self.left2.step_state(s1, v);
        self.func.next_match(s2, self.left.step_match(s, v), self.left2.step_match(s1, v))
    }

    fn for_test(&self, s: &mut S, v: &u8) -> (m: bool) {
        let m1 = self.left.for_test(s, v);
        let m2 = self.left2.for_test(s, v);
        self.func.call(s, m1, m2)
    }
}

/// State for the counting side effects: how many matches have been seen.
#[derive(Clone, Copy, Debug, PartialEq, Eq, Structural)]
pub struct CountState {
    pub num: usize,
}

/// Counts every match of the inner predicate and never stops the scan.
pub struct MatchCounter;

impl ExecFn<CountState> for MatchCounter {
    open spec fn next_state(&self, s: CountState, m: bool) -> CountState {
        if m && s.num < usize::MAX {
            CountState { num: (s.num + 1) as usize }
        } else {
            s
        }
    }

    open spec fn next_match(&self, s: CountState, m: bool) -> bool {
        false
    }

    fn call(&self, s: &mut CountState, m: bool) -> (r: bool) {
        if m && s.num < usize::MAX {
            s.num = s.num + 1;
        }
        false
    }
}

/// Forwards the inner verdict unchanged and leaves the state alone.
pub struct PassThrough;

impl<S> ExecFn<S> for PassThrough {
    open spec fn next_state(&self, s: S, m: bool) -> S {
        s
    }

    open spec fn next_match(&self, s: S, m: bool) -> bool {
        m
    }

    fn call(&self, s: &mut S, m: bool) -> (r: bool) {
        m
    }
}

/// Counts matches of the first predicate and stops the scan where the
/// second one matches.
pub struct CountAndStop;

impl DualExecFn<CountState> for CountAndStop {
    open spec fn next_state(&self, s: CountState, m1: bool, m2: bool) -> CountState {
        if m1 && s.num < usize::MAX {
            CountState { num: (s.num + 1) as usize }
        } else {
            s
        }
    }

    open spec fn next_match(&self, s: CountState, m1: bool, m2: bool) -> bool {
        m2
    }

    fn call(&self, s: &mut CountState, m1: bool, m2: bool) -> (r: bool) {
        if m1 && s.num < usize::MAX {
            s.num = s.num + 1;
        }
        m2
    }
}

} // verus!
