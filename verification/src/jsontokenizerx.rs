//! The scanner-driven skip engine: fast-forwards past whole JSON values
//! using the chunked byte scanner with side-effectful predicates.
//!
//! The depth walker scans for one bracket pair together with quotes and
//! backslashes: bracket accounting is suppressed inside strings, an
//! unescaped quote toggles the in-string flag, and a backslash inside a
//! string stops the scan so the walker can step over the escaped byte and
//! resume.  Each routine is proved to land exactly where its byte-level
//! spec model says.

use crate::bytesiterator::BytesIterator;
use crate::jsontokenizer::TokenizerErrorType;
use crate::jsontokenizer_spec::{is_number_char, lemma_number_end_first, spec_number_end};
use crate::jsontokenizer_token::JsonTokenType;
use crate::simdsearch_ops::{
    lemma_scan_find_in_range, scan_find, scan_state, DualExecFn, ExecFn, SimdSearch,
    SimdSearchDualExec, SimdSearchEq, SimdSearchExec, SimdSearchNot, SimdSearchOr,
};
use vstd::prelude::*;

verus! {

/// Whitespace as the scanning skip engine sees it: the tokenizer's set
/// plus the form-feed byte.
pub open spec fn is_xws(b: u8) -> bool {
    b == 9 || b == 10 || b == 12 || b == 13 || b == 32
}

/// The first offset at or after `pos` holding a non-whitespace byte, or
/// nothing.
pub open spec fn spec_xnonws(data: Seq<u8>, pos: int) -> Option<int>
    decreases data.len() - pos,
{
    if pos < 0 || pos >= data.len() {
        None
    } else if !is_xws(data[pos]) {
        Some(pos)
    } else {
        spec_xnonws(data, pos + 1)
    }
}


/// A found non-whitespace byte lies inside the input.
pub proof fn lemma_xnonws_byte(data: Seq<u8>, pos: int)
    requires
        0 <= pos,
    ensures
        spec_xnonws(data, pos) matches Some(j) ==> pos <= j < data.len() && !is_xws(data[j]),
    decreases data.len() - pos,
{
    if pos < data.len() && is_xws(data[pos]) {
        lemma_xnonws_byte(data, pos + 1);
    }
}

/// The whitespace predicate: matches the first byte that is not
/// whitespace.
type XwsPred = SimdSearchNot<
    SimdSearchOr<
        SimdSearchOr<
            SimdSearchOr<SimdSearchOr<SimdSearchEq<()>, SimdSearchEq<()>, ()>, SimdSearchEq<()>, ()>,
            SimdSearchEq<()>,
            (),
        >,
        SimdSearchEq<()>,
        (),
    >,
    (),
>;

fn xws_pred() -> (r: XwsPred)
    ensures
        forall|s: (), b: u8| r.step_state(s, b) == s,
        forall|s: (), b: u8| r.step_match(s, b) == !is_xws(b),
{
    SimdSearchNot::new(
        SimdSearchOr::new(
            SimdSearchOr::new(
                SimdSearchOr::new(
                    SimdSearchOr::new(SimdSearchEq::new(9), SimdSearchEq::new(10)),
                    SimdSearchEq::new(12),
                ),
                SimdSearchEq::new(13),
            ),
            SimdSearchEq::new(32),
        ),
    )
}

/// For a stateless predicate matching exactly the non-whitespace bytes,
/// the scan finds the first non-whitespace byte.
proof fn lemma_xnonws_scan<C: SimdSearch<()>>(c: &C, data: Seq<u8>, pos: int)
    requires
        0 <= pos,
        forall|s: (), b: u8| c.step_state(s, b) == s,
        forall|s: (), b: u8| c.step_match(s, b) == !is_xws(b),
    ensures
        scan_find(c, (), data, pos) == spec_xnonws(data, pos),
    decreases data.len() - pos,
{
    if pos < data.len() && !c.step_match((), data[pos]) {
        lemma_xnonws_scan(c, data, pos + 1);
    }
}

/// The first offset at or after `pos` holding a quote or a backslash, or
/// nothing.
pub open spec fn spec_xstr_find(data: Seq<u8>, pos: int) -> Option<int>
    decreases data.len() - pos,
{
    if pos < 0 || pos >= data.len() {
        None
    } else if data[pos] == 34 || data[pos] == 92 {
        Some(pos)
    } else {
        spec_xstr_find(data, pos + 1)
    }
}

/// The rest of a string body scanned from `pos`: a quote closes it, a
/// backslash shields the following byte; the result is the offset one
/// past the closing quote, or the offset at which the input ran out.
pub open spec fn spec_xstring(data: Seq<u8>, pos: int) -> Result<int, int>
    decreases data.len() + 2 - pos,
{
    if pos < 0 || pos >= data.len() {
        Err(pos)
    } else if data[pos] == 34 {
        Ok(pos + 1)
    } else if data[pos] == 92 {
        spec_xstring(data, pos + 2)
    } else {
        spec_xstring(data, pos + 1)
    }
}

/// One scan step of the string model: the scan stops at the first quote
/// or backslash, and the model either closes there or resumes two bytes
/// past the backslash.
proof fn lemma_xstring_advance(data: Seq<u8>, pos: int)
    requires
        0 <= pos <= data.len(),
    ensures
        match spec_xstr_find(data, pos) {
            None => spec_xstring(data, pos) == Err::<int, int>(data.len() as int),
            Some(j) => if data[j] == 34 {
                spec_xstring(data, pos) == Ok::<int, int>(j + 1)
            } else {
                spec_xstring(data, pos) == spec_xstring(data, j + 2)
            },
        },
    decreases data.len() - pos,
{
    if pos < data.len() && !(data[pos] == 34 || data[pos] == 92) {
        lemma_xstring_advance(data, pos + 1);
    }
}


/// A found special byte lies inside the input and is a quote or a
/// backslash.
proof fn lemma_xstr_find_byte(data: Seq<u8>, pos: int)
    requires
        0 <= pos,
    ensures
        spec_xstr_find(data, pos) matches Some(j) ==> pos <= j < data.len() && (data[j] == 34
            || data[j] == 92),
    decreases data.len() - pos,
{
    if pos < data.len() && !(data[pos] == 34 || data[pos] == 92) {
        lemma_xstr_find_byte(data, pos + 1);
    }
}

/// The string predicate: matches a quote or a backslash.
type XstrPred = SimdSearchOr<SimdSearchEq<()>, SimdSearchEq<()>, ()>;

fn xstr_pred() -> (r: XstrPred)
    ensures
        forall|s: (), b: u8| r.step_state(s, b) == s,
        forall|s: (), b: u8| r.step_match(s, b) == (b == 34 || b == 92),
{
    SimdSearchOr::new(SimdSearchEq::new(34), SimdSearchEq::new(92))
}

/// For a stateless predicate matching exactly quotes and backslashes, the
/// scan finds the first of either.
proof fn lemma_xstr_scan<C: SimdSearch<()>>(c: &C, data: Seq<u8>, pos: int)
    requires
        0 <= pos,
        forall|s: (), b: u8| c.step_state(s, b) == s,
        forall|s: (), b: u8| c.step_match(s, b) == (b == 34 || b == 92),
    ensures
        scan_find(c, (), data, pos) == spec_xstr_find(data, pos),
    decreases data.len() - pos,
{
    if pos < data.len() && !c.step_match((), data[pos]) {
        lemma_xstr_scan(c, data, pos + 1);
    }
}

/// State threaded through the depth walker's predicate: the bracket
/// nesting depth and whether the scan currently sits inside a string.
pub struct SkipState {
    pub depth: u64,
    pub in_str: bool,
}

/// One more nesting level, pinned at the ceiling instead of overflowing.
pub open spec fn sat_inc(d: u64) -> u64 {
    if d == u64::MAX {
        d
    } else {
        (d + 1) as u64
    }
}

/// One less nesting level, pinned at zero.
pub open spec fn sat_dec(d: u64) -> u64 {
    if d == 0 {
        0
    } else {
        (d - 1) as u64
    }
}

/// Bracket accounting outside strings: an opener deepens, a closer
/// shallows and stops the scan when the depth returns to zero; inside a
/// string brackets are plain bytes.
pub struct DepthAdjust;

impl DualExecFn<SkipState> for DepthAdjust {
    open spec fn next_state(&self, s: SkipState, m1: bool, m2: bool) -> SkipState {
        if s.in_str {
            s
        } else if m1 {
            SkipState { depth: sat_inc(s.depth), in_str: s.in_str }
        } else if m2 {
            SkipState { depth: sat_dec(s.depth), in_str: s.in_str }
        } else {
            s
        }
    }

    open spec fn next_match(&self, s: SkipState, m1: bool, m2: bool) -> bool {
        !s.in_str && m2 && sat_dec(s.depth) == 0
    }

    fn call(&self, s: &mut SkipState, m1: bool, m2: bool) -> (r: bool) {
        if s.in_str {
            return false;
        }
        let stop = m2 && s.depth <= 1;
        if m1 {
            if s.depth < u64::MAX {
                s.depth = s.depth + 1;
            }
        } else if m2 {
            if s.depth > 0 {
                s.depth = s.depth - 1;
            }
        }
        stop
    }
}

/// Flips the in-string flag on every unescaped quote; never stops the
/// scan by itself.
pub struct QuoteToggle;

impl ExecFn<SkipState> for QuoteToggle {
    open spec fn next_state(&self, s: SkipState, m: bool) -> SkipState {
        if m {
            SkipState { depth: s.depth, in_str: !s.in_str }
        } else {
            s
        }
    }

    open spec fn next_match(&self, s: SkipState, m: bool) -> bool {
        false
    }

    fn call(&self, s: &mut SkipState, m: bool) -> (r: bool) {
        if m {
            s.in_str = !s.in_str;
        }
        false
    }
}

/// Stops the scan at a backslash inside a string, so the walker can step
/// over the escaped byte and resume.
pub struct EscapeStop;

impl ExecFn<SkipState> for EscapeStop {
    open spec fn next_state(&self, s: SkipState, m: bool) -> SkipState {
        s
    }

    open spec fn next_match(&self, s: SkipState, m: bool) -> bool {
        m && s.in_str
    }

    fn call(&self, s: &mut SkipState, m: bool) -> (r: bool) {
        m && s.in_str
    }
}

/// The state after the walker's predicate has examined one byte.
pub open spec fn xwalk_state(s: SkipState, b: u8, deep: u8, shallow: u8) -> SkipState {
    if b == 34 {
        SkipState { depth: s.depth, in_str: !s.in_str }
    } else if s.in_str {
        s
    } else if b == deep {
        SkipState { depth: sat_inc(s.depth), in_str: s.in_str }
    } else if b == shallow {
        SkipState { depth: sat_dec(s.depth), in_str: s.in_str }
    } else {
        s
    }
}

/// Whether the walker's predicate stops on this byte: a closer that
/// returns the depth to zero outside a string, or a backslash inside one.
pub open spec fn xwalk_stop(s: SkipState, b: u8, deep: u8, shallow: u8) -> bool {
    if s.in_str {
        b == 92
    } else {
        b == shallow && sat_dec(s.depth) == 0
    }
}

/// The bytes the walker's predicate treats specially must be distinct
/// brackets, not quotes or backslashes.
pub open spec fn xwalk_bytes_ok(deep: u8, shallow: u8) -> bool {
    deep != shallow && deep != 34 && deep != 92 && shallow != 34 && shallow != 92
}

/// The depth walker's byte model: walk from `pos` with predicate state
/// `s` until an unescaped closer outside a string returns the depth to
/// zero; a backslash inside a string shields the following byte.  The
/// result is the offset one past the closing bracket, or the offset at
/// which the input ran out.
pub open spec fn spec_xwalk(data: Seq<u8>, pos: int, deep: u8, shallow: u8, s: SkipState) -> Result<
    int,
    int,
>
    decreases data.len() + 2 - pos,
{
    if pos < 0 || pos >= data.len() {
        Err(pos)
    } else {
        let b = data[pos];
        let s1 = xwalk_state(s, b, deep, shallow);
        if xwalk_stop(s, b, deep, shallow) {
            if s.in_str {
                spec_xwalk(data, pos + 2, deep, shallow, s1)
            } else {
                Ok(pos + 1)
            }
        } else {
            spec_xwalk(data, pos + 1, deep, shallow, s1)
        }
    }
}

/// The walker's bracket-pair predicate.
type XskipPred = SimdSearchOr<
    SimdSearchOr<
        SimdSearchDualExec<SimdSearchEq<SkipState>, SimdSearchEq<SkipState>, DepthAdjust, SkipState>,
        SimdSearchExec<SimdSearchEq<SkipState>, QuoteToggle, SkipState>,
        SkipState,
    >,
    SimdSearchExec<SimdSearchEq<SkipState>, EscapeStop, SkipState>,
    SkipState,
>;

fn xskip_pred(deep_byte: u8, shallow_byte: u8) -> (r: XskipPred)
    requires
        xwalk_bytes_ok(deep_byte, shallow_byte),
    ensures
        forall|s: SkipState, b: u8| r.step_state(s, b) == xwalk_state(s, b, deep_byte, shallow_byte),
        forall|s: SkipState, b: u8| r.step_match(s, b) == xwalk_stop(s, b, deep_byte, shallow_byte),
{
    SimdSearchOr::new(
        SimdSearchOr::new(
            SimdSearchDualExec::new(
                SimdSearchEq::new(deep_byte),
                SimdSearchEq::new(shallow_byte),
                DepthAdjust,
            ),
            SimdSearchExec::new(SimdSearchEq::new(34), QuoteToggle),
        ),
        SimdSearchExec::new(SimdSearchEq::new(92), EscapeStop),
    )
}

/// For a predicate behaving byte-for-byte as the walker's, the scan stops
/// exactly where the byte model either closes or steps over an escape.
proof fn lemma_xwalk_scan<C: SimdSearch<SkipState>>(
    c: &C,
    data: Seq<u8>,
    pos: int,
    deep: u8,
    shallow: u8,
    s: SkipState,
)
    requires
        0 <= pos <= data.len(),
        forall|t: SkipState, b: u8| c.step_state(t, b) == xwalk_state(t, b, deep, shallow),
        forall|t: SkipState, b: u8| c.step_match(t, b) == xwalk_stop(t, b, deep, shallow),
        shallow != 92,
    ensures
        match scan_find(c, s, data, pos) {
            None => spec_xwalk(data, pos, deep, shallow, s) == Err::<int, int>(data.len() as int),
            Some(j) => {
                let s2 = scan_state(c, s, data, pos);
                if data[j] == 92 {
                    spec_xwalk(data, pos, deep, shallow, s) == spec_xwalk(
                        data,
                        j + 2,
                        deep,
                        shallow,
                        s2,
                    )
                } else {
                    spec_xwalk(data, pos, deep, shallow, s) == Ok::<int, int>(j + 1)
                }
            },
        },
    decreases data.len() - pos,
{
    if pos < data.len() && !c.step_match(s, data[pos]) {
        lemma_xwalk_scan(c, data, pos + 1, deep, shallow, c.step_state(s, data[pos]));
    }
}

/// Skip one whole JSON value starting at or after `pos`: skip whitespace,
/// consume the dispatch byte, and fast-forward past the value.  On
/// success the offset one past the value's last byte; on failure the
/// reason and the offset where the walk stopped.
pub open spec fn spec_xskip_value(data: Seq<u8>, pos: int) -> Result<
    int,
    (TokenizerErrorType, int),
> {
    if pos >= data.len() {
        Err((TokenizerErrorType::UnexpectedEndOfInput, pos))
    } else {
        match spec_xnonws(data, pos) {
            None => Err((TokenizerErrorType::UnexpectedEndOfInput, data.len() as int)),
            Some(j) => {
                let b = data[j];
                let p = j + 1;
                if b == 123 {
                    match spec_xwalk(data, p, 123, 125, SkipState { depth: 1, in_str: false }) {
                        Ok(q) => Ok(q),
                        Err(fp) => Err((TokenizerErrorType::UnexpectedEndOfInput, fp)),
                    }
                } else if b == 91 {
                    match spec_xwalk(data, p, 91, 93, SkipState { depth: 1, in_str: false }) {
                        Ok(q) => Ok(q),
                        Err(fp) => Err((TokenizerErrorType::UnexpectedEndOfInput, fp)),
                    }
                } else if b == 34 {
                    match spec_xstring(data, p) {
                        Ok(q) => Ok(q),
                        Err(fp) => Err((TokenizerErrorType::UnexpectedEndOfInput, fp)),
                    }
                } else if b == 45 || (48 <= b <= 57) {
                    Ok(spec_number_end(data, p))
                } else if b == 116 || b == 84 {
                    if p + 3 <= data.len() {
                        Ok(p + 3)
                    } else {
                        Err((TokenizerErrorType::UnexpectedEndOfInput, data.len() as int))
                    }
                } else if b == 102 || b == 70 {
                    if p + 4 <= data.len() {
                        Ok(p + 4)
                    } else {
                        Err((TokenizerErrorType::UnexpectedEndOfInput, data.len() as int))
                    }
                } else if b == 110 || b == 78 {
                    if p + 3 <= data.len() {
                        Ok(p + 3)
                    } else {
                        Err((TokenizerErrorType::UnexpectedEndOfInput, data.len() as int))
                    }
                } else {
                    Err((TokenizerErrorType::UnexpectedBeginChar, p))
                }
            },
        }
    }
}

/// A skip engine over a byte cursor, accelerated by the chunked scanner.
pub struct JsonTokenizerX<'a> {
    iter: BytesIterator<'a>,
}

impl<'a> JsonTokenizerX<'a> {
    /// The input bytes being walked.
    pub closed spec fn spec_bytes(&self) -> Seq<u8> {
        self.iter.spec_bytes()
    }

    /// The cursor's current offset.
    pub closed spec fn spec_pos(&self) -> int {
        self.iter.spec_pos()
    }

    pub fn new(input: &'a [u8]) -> (r: JsonTokenizerX<'a>)
        ensures
            r.spec_bytes() == input@,
            r.spec_pos() == 0,
    {
        JsonTokenizerX { iter: BytesIterator::new(input) }
    }

    /// Step over the three bytes that follow the leading `t` of `true`.
    fn skip_true(&mut self) -> (r: Result<(), TokenizerErrorType>)
        ensures
            final(self).spec_bytes() == old(self).spec_bytes(),
            old(self).spec_pos() + 3 > old(self).spec_bytes().len() ==> r == Err::<
                (),
                TokenizerErrorType,
            >(TokenizerErrorType::UnexpectedEndOfInput) && final(self).spec_pos() == old(self).spec_bytes().len(),
            old(self).spec_pos() + 3 <= old(self).spec_bytes().len() ==> r is Ok && final(self).spec_pos() == old(self).spec_pos() + 3,
    {
        match self.iter.read_multi::<3>() {
            Ok(_) => Ok(()),
            Err(_) => Err(TokenizerErrorType::UnexpectedEndOfInput),
        }
    }

    /// Step over the four bytes that follow the leading `f` of `false`.
    fn skip_false(&mut self) -> (r: Result<(), TokenizerErrorType>)
        ensures
            final(self).spec_bytes() == old(self).spec_bytes(),
            old(self).spec_pos() + 4 > old(self).spec_bytes().len() ==> r == Err::<
                (),
                TokenizerErrorType,
            >(TokenizerErrorType::UnexpectedEndOfInput) && final(self).spec_pos() == old(self).spec_bytes().len(),
            old(self).spec_pos() + 4 <= old(self).spec_bytes().len() ==> r is Ok && final(self).spec_pos() == old(self).spec_pos() + 4,
    {
        match self.iter.read_multi::<4>() {
            Ok(_) => Ok(()),
            Err(_) => Err(TokenizerErrorType::UnexpectedEndOfInput),
        }
    }

    /// Step over the three bytes that follow the leading `n` of `null`.
    fn skip_null(&mut self) -> (r: Result<(), TokenizerErrorType>)
        ensures
            final(self).spec_bytes() == old(self).spec_bytes(),
            old(self).spec_pos() + 3 > old(self).spec_bytes().len() ==> r == Err::<
                (),
                TokenizerErrorType,
            >(TokenizerErrorType::UnexpectedEndOfInput) && final(self).spec_pos() == old(self).spec_bytes().len(),
            old(self).spec_pos() + 3 <= old(self).spec_bytes().len() ==> r is Ok && final(self).spec_pos() == old(self).spec_pos() + 3,
    {
        match self.iter.read_multi::<3>() {
            Ok(_) => Ok(()),
            Err(_) => Err(TokenizerErrorType::UnexpectedEndOfInput),
        }
    }

    /// Fast-forward past the rest of a string whose opening quote has
    /// already been consumed.
    fn skip_string(&mut self) -> (r: Result<(), TokenizerErrorType>)
        requires
            old(self).spec_bytes().len() < usize::MAX,
        ensures
            final(self).spec_bytes() == old(self).spec_bytes(),
            match spec_xstring(old(self).spec_bytes(), old(self).spec_pos()) {
                Ok(end) => r is Ok && final(self).spec_pos() == end,
                Err(fp) => r == Err::<(), TokenizerErrorType>(
                    TokenizerErrorType::UnexpectedEndOfInput,
                ) && final(self).spec_pos() == fp,
            },
    {
        let check = xstr_pred();
        proof {
            self.iter.lemma_pos_nonneg();
        }
        loop
            invariant
                self.spec_bytes() == old(self).spec_bytes(),
                self.spec_bytes().len() < usize::MAX,
                0 <= self.spec_pos(),
                forall|s: (), b: u8| check.step_state(s, b) == s,
                forall|s: (), b: u8| check.step_match(s, b) == (b == 34 || b == 92),
                spec_xstring(old(self).spec_bytes(), old(self).spec_pos()) == spec_xstring(
                    self.spec_bytes(),
                    self.spec_pos(),
                ),
            decreases self.spec_bytes().len() + 2 - self.spec_pos(),
        {
            let ghost pre_pos = self.iter.spec_pos();
            let mut unit: () = ();
            let r = self.iter.skip_fast_until_and_get(&mut unit, &check);
            proof {
                if pre_pos < self.spec_bytes().len() {
                    lemma_scan_find_in_range(&check, (), self.spec_bytes(), pre_pos);
                    lemma_xstr_scan(&check, self.spec_bytes(), pre_pos);
                    lemma_xstr_find_byte(self.spec_bytes(), pre_pos);
                    lemma_xstring_advance(self.spec_bytes(), pre_pos);
                }
            }
            match r {
                Ok(c) => {
                    if c == 92 {
                        self.iter.skip(1);
                    } else {
                        return Ok(());
                    }
                },
                Err(_) => {
                    return Err(TokenizerErrorType::UnexpectedEndOfInput);
                },
            }
        }
    }

    /// Fast-forward past the rest of a number whose first byte has
    /// already been consumed.
    fn skip_number(&mut self) -> (r: Result<(), TokenizerErrorType>)
        ensures
            final(self).spec_bytes() == old(self).spec_bytes(),
            r is Ok,
            old(self).spec_pos() >= old(self).spec_bytes().len() ==> final(self).spec_pos() == old(self).spec_pos(),
            0 <= old(self).spec_pos() < old(self).spec_bytes().len() ==> final(self).spec_pos()
                == spec_number_end(old(self).spec_bytes(), old(self).spec_pos()),
    {
        let not_numeric = |c: u8| -> (stop: bool)
            ensures
                stop == !crate::jsontokenizer_spec::is_number_char(c),
            {
                !((48 <= c && c <= 57) || c == 46 || c == 101 || c == 69 || c == 43 || c == 45)
            };
        let ghost pre = *self;
        let r = self.iter.skip_until(not_numeric);
        proof {
            if 0 <= pre.spec_pos() < pre.spec_bytes().len() {
                let j = self.iter.spec_pos();
                assert forall|k: int| pre.spec_pos() <= k < j implies is_number_char(
                    pre.spec_bytes()[k],
                ) by {
                    assert(call_ensures(not_numeric, (pre.spec_bytes()[k],), false));
                }
                if j < pre.spec_bytes().len() {
                    assert(call_ensures(not_numeric, (pre.spec_bytes()[j],), true));
                }
                lemma_number_end_first(pre.spec_bytes(), pre.spec_pos(), j);
            }
        }
        match r {
            Ok(_) => Ok(()),
            Err(_) => Ok(()),
        }
    }

    /// Walk out of one bracket pair: scan for the pair's openers and
    /// closers with string-escape tracking, until the depth returns to
    /// zero; land one past the closing bracket.
    fn skip_out_of_object_or_array(&mut self, deep_byte: u8, shallow_byte: u8) -> (r: Result<
        (),
        TokenizerErrorType,
    >)
        requires
            xwalk_bytes_ok(deep_byte, shallow_byte),
            old(self).spec_bytes().len() < usize::MAX,
        ensures
            final(self).spec_bytes() == old(self).spec_bytes(),
            match spec_xwalk(
                old(self).spec_bytes(),
                old(self).spec_pos(),
                deep_byte,
                shallow_byte,
                SkipState { depth: 1, in_str: false },
            ) {
                Ok(end) => r is Ok && final(self).spec_pos() == end,
                Err(fp) => r == Err::<(), TokenizerErrorType>(
                    TokenizerErrorType::UnexpectedEndOfInput,
                ) && final(self).spec_pos() == fp,
            },
    {
        let check = xskip_pred(deep_byte, shallow_byte);
        let mut state = SkipState { depth: 1, in_str: false };
        proof {
            self.iter.lemma_pos_nonneg();
        }
        loop
            invariant
                self.spec_bytes() == old(self).spec_bytes(),
                self.spec_bytes().len() < usize::MAX,
                0 <= self.spec_pos(),
                xwalk_bytes_ok(deep_byte, shallow_byte),
                forall|t: SkipState, b: u8|
                    check.step_state(t, b) == xwalk_state(t, b, deep_byte, shallow_byte),
                forall|t: SkipState, b: u8|
                    check.step_match(t, b) == xwalk_stop(t, b, deep_byte, shallow_byte),
                spec_xwalk(
                    old(self).spec_bytes(),
                    old(self).spec_pos(),
                    deep_byte,
                    shallow_byte,
                    SkipState { depth: 1, in_str: false },
                ) == spec_xwalk(
                    self.spec_bytes(),
                    self.spec_pos(),
                    deep_byte,
                    shallow_byte,
                    state,
                ),
            decreases self.spec_bytes().len() + 2 - self.spec_pos(),
        {
            let ghost pre_pos = self.iter.spec_pos();
            let ghost pre_state = state;
            let r = self.iter.skip_fast_until_and_get(&mut state, &check);
            proof {
                if pre_pos < self.spec_bytes().len() {
                    lemma_scan_find_in_range(&check, pre_state, self.spec_bytes(), pre_pos);
                    lemma_xwalk_scan(
                        &check,
                        self.spec_bytes(),
                        pre_pos,
                        deep_byte,
                        shallow_byte,
                        pre_state,
                    );
                }
            }
            match r {
                Ok(c) => {
                    if c == 92 {
                        self.iter.skip(1);
                    } else {
                        return Ok(());
                    }
                },
                Err(_) => {
                    return Err(TokenizerErrorType::UnexpectedEndOfInput);
                },
            }
        }
    }

    /// Walk out of the object the cursor currently sits in.
    pub fn skip_out_of_object(&mut self) -> (r: Result<(), TokenizerErrorType>)
        requires
            old(self).spec_bytes().len() < usize::MAX,
        ensures
            final(self).spec_bytes() == old(self).spec_bytes(),
            match spec_xwalk(
                old(self).spec_bytes(),
                old(self).spec_pos(),
                123,
                125,
                SkipState { depth: 1, in_str: false },
            ) {
                Ok(end) => r is Ok && final(self).spec_pos() == end,
                Err(fp) => r == Err::<(), TokenizerErrorType>(
                    TokenizerErrorType::UnexpectedEndOfInput,
                ) && final(self).spec_pos() == fp,
            },
    {
        self.skip_out_of_object_or_array(123, 125)
    }

    /// Walk out of the array the cursor currently sits in.
    pub fn skip_out_of_array(&mut self) -> (r: Result<(), TokenizerErrorType>)
        requires
            old(self).spec_bytes().len() < usize::MAX,
        ensures
            final(self).spec_bytes() == old(self).spec_bytes(),
            match spec_xwalk(
                old(self).spec_bytes(),
                old(self).spec_pos(),
                91,
                93,
                SkipState { depth: 1, in_str: false },
            ) {
                Ok(end) => r is Ok && final(self).spec_pos() == end,
                Err(fp) => r == Err::<(), TokenizerErrorType>(
                    TokenizerErrorType::UnexpectedEndOfInput,
                ) && final(self).spec_pos() == fp,
            },
    {
        self.skip_out_of_object_or_array(91, 93)
    }

    /// Advance to the first non-whitespace byte, step past it, and hand
    /// it back.
    fn skip_whitespace_and_get(&mut self) -> (r: Result<u8, TokenizerErrorType>)
        ensures
            final(self).spec_bytes() == old(self).spec_bytes(),
            old(self).spec_pos() >= old(self).spec_bytes().len() ==> r == Err::<
                u8,
                TokenizerErrorType,
            >(TokenizerErrorType::UnexpectedEndOfInput) && final(self).spec_pos() == old(self).spec_pos(),
            0 <= old(self).spec_pos() < old(self).spec_bytes().len() ==> match spec_xnonws(
                old(self).spec_bytes(),
                old(self).spec_pos(),
            ) {
                Some(j) => r == Ok::<u8, TokenizerErrorType>(old(self).spec_bytes()[j]) && final(self).spec_pos() == j + 1,
                None => r == Err::<u8, TokenizerErrorType>(
                    TokenizerErrorType::UnexpectedEndOfInput,
                ) && final(self).spec_pos() == old(self).spec_bytes().len(),
            },
    {
        let check = xws_pred();
        let mut unit: () = ();
        proof {
            self.iter.lemma_pos_nonneg();
        }
        let ghost pre_pos = self.iter.spec_pos();
        let r = self.iter.skip_fast_until_and_get(&mut unit, &check);
        proof {
            if 0 <= pre_pos < self.spec_bytes().len() {
                lemma_xnonws_scan(&check, self.spec_bytes(), pre_pos);
            }
        }
        match r {
            Ok(c) => Ok(c),
            Err(_) => Err(TokenizerErrorType::UnexpectedEndOfInput),
        }
    }

    /// Fast-forward past one whole JSON value at or after the cursor.
    pub fn skip_over_value(&mut self) -> (r: Result<(), TokenizerErrorType>)
        requires
            old(self).spec_bytes().len() < usize::MAX,
        ensures
            final(self).spec_bytes() == old(self).spec_bytes(),
            match spec_xskip_value(old(self).spec_bytes(), old(self).spec_pos()) {
                Ok(end) => r is Ok && final(self).spec_pos() == end,
                Err((et, fp)) => r == Err::<(), TokenizerErrorType>(et) && final(self).spec_pos()
                    == fp,
            },
    {
        proof {
            self.iter.lemma_pos_nonneg();
        }
        let ghost pre = *old(self);
        let c = match self.skip_whitespace_and_get() {
            Ok(c) => c,
            Err(_) => {
                return Err(TokenizerErrorType::UnexpectedEndOfInput);
            },
        };
        proof {
            lemma_xnonws_byte(pre.spec_bytes(), pre.spec_pos());
        }
        if c == 123 {
            self.skip_out_of_object()
        } else if c == 91 {
            self.skip_out_of_array()
        } else if c == 34 {
            self.skip_string()
        } else if c == 45 || (48 <= c && c <= 57) {
            self.skip_number()
        } else if c == 116 || c == 84 {
            self.skip_true()
        } else if c == 102 || c == 70 {
            self.skip_false()
        } else if c == 110 || c == 78 {
            self.skip_null()
        } else {
            Err(TokenizerErrorType::UnexpectedBeginChar)
        }
    }

    /// Report whether anything but whitespace remains: the kind of the
    /// next value-ish byte, or the terminal.  The cursor steps past the
    /// byte it looked at.
    pub fn step(&mut self) -> (r: Result<JsonTokenType, TokenizerErrorType>)
        ensures
            final(self).spec_bytes() == old(self).spec_bytes(),
            old(self).spec_pos() >= old(self).spec_bytes().len() ==> r == Ok::<
                JsonTokenType,
                TokenizerErrorType,
            >(JsonTokenType::End) && final(self).spec_pos() == old(self).spec_pos(),
            0 <= old(self).spec_pos() < old(self).spec_bytes().len() ==> match spec_xnonws(
                old(self).spec_bytes(),
                old(self).spec_pos(),
            ) {
                Some(j) => r == Ok::<JsonTokenType, TokenizerErrorType>(JsonTokenType::Null)
                    && final(self).spec_pos() == j + 1,
                None => r == Ok::<JsonTokenType, TokenizerErrorType>(JsonTokenType::End) && final(self).spec_pos() == old(self).spec_bytes().len(),
            },
    {
        match self.skip_whitespace_and_get() {
            Ok(_) => Ok(JsonTokenType::Null),
            Err(_) => Ok(JsonTokenType::End),
        }
    }
}

} // verus!
