//! The shape of a whole JSON value, and the proof that the skip engine
//! lands exactly at its end.
//!
//! The grammar here is deliberately as permissive as the skip engine
//! itself: inside brackets, any run of whole values separated by
//! whitespace, colons and commas is accepted, and a closing bracket of
//! either kind closes the level.  Every strictly valid JSON value falls
//! inside this shape, so what is proved of the shape holds of every
//! valid JSON input.

use crate::jsontokenizer::TokenizerErrorType;
use crate::jsontokenizer_spec::{
    is_digit, lemma_filler_end_bounds, lemma_filler_prefix, lemma_number_end_bounds,
    lemma_number_prefix, lemma_string_scan_bounds, lemma_ws_end_bounds, spec_filler_end,
    spec_number_end, spec_skip_false, spec_skip_null, spec_skip_over_value, spec_skip_true,
    spec_skip_walker, spec_string_scan, spec_ws_end,
};
use crate::jsontokenizerx::{
    lemma_xnonws_byte, spec_xnonws, spec_xskip_value, spec_xstring, spec_xwalk, SkipState,
};
use vstd::prelude::*;

verus! {

/// One past the end of the JSON value that starts exactly at `pos`, or
/// nothing when no whole value starts there.
pub open spec fn json_value_end(data: Seq<u8>, pos: int) -> Option<int>
    decreases data.len() - pos, 0int,
    when 0 <= pos
    via json_value_end_decreases
{
    if pos >= data.len() {
        None
    } else {
        let b = data[pos];
        if b == 123 {
            match json_items_end(data, pos + 1, 125) {
                Some(c) => Some(c + 1),
                None => None,
            }
        } else if b == 91 {
            match json_items_end(data, pos + 1, 93) {
                Some(c) => Some(c + 1),
                None => None,
            }
        } else if b == 34 {
            match spec_string_scan(data, pos + 1, false) {
                Some(q) => Some(q + 1),
                None => None,
            }
        } else if b == 45 || is_digit(b) {
            Some(spec_number_end(data, pos + 1))
        } else if b == 116 || b == 84 {
            match spec_skip_true(data, pos) {
                Ok(q) => Some(q),
                Err(_) => None,
            }
        } else if b == 102 || b == 70 {
            match spec_skip_false(data, pos) {
                Ok(q) => Some(q),
                Err(_) => None,
            }
        } else if b == 110 || b == 78 {
            match spec_skip_null(data, pos) {
                Ok(q) => Some(q),
                Err(_) => None,
            }
        } else {
            None
        }
    }
}

/// The offset of the closing bracket that ends the bracket level entered
/// just before `pos`: whole values and filler run up to the level's own
/// `closer` byte.
pub open spec fn json_items_end(data: Seq<u8>, pos: int, closer: u8) -> Option<int>
    decreases data.len() - pos, 1int,
    when 0 <= pos
    via json_items_end_decreases
{
    if pos >= data.len() {
        None
    } else {
        let p = spec_filler_end(data, pos);
        if p >= data.len() {
            None
        } else if data[p] == closer {
            Some(p)
        } else if data[p] == 125 || data[p] == 93 {
            None
        } else {
            match json_value_end(data, p) {
                Some(q) => if p < q && q <= data.len() {
                    json_items_end(data, q, closer)
                } else {
                    None
                },
                None => None,
            }
        }
    }
}

#[via_fn]
proof fn json_value_end_decreases(data: Seq<u8>, pos: int) {
}

#[via_fn]
proof fn json_items_end_decreases(data: Seq<u8>, pos: int, closer: u8) {
    if pos < data.len() {
        lemma_filler_end_bounds(data, pos);
    }
}

/// A whole value covers at least one byte and stays inside the input.
pub proof fn lemma_json_value_bounds(data: Seq<u8>, pos: int)
    requires
        0 <= pos,
    ensures
        json_value_end(data, pos) matches Some(q) ==> pos < q <= data.len(),
    decreases data.len() - pos, 0int,
{
    if pos < data.len() {
        let b = data[pos];
        if b == 123 {
            lemma_json_items_bounds(data, pos + 1, 125);
        } else if b == 91 {
            lemma_json_items_bounds(data, pos + 1, 93);
        } else if b == 34 {
            lemma_string_scan_bounds(data, pos + 1, false);
        } else if b == 45 || is_digit(b) {
            lemma_number_end_bounds(data, pos + 1);
        }
    }
}

/// A bracket level's closing bracket lies inside the input, at or after
/// the level's first byte.
pub proof fn lemma_json_items_bounds(data: Seq<u8>, pos: int, closer: u8)
    requires
        0 <= pos,
    ensures
        json_items_end(data, pos, closer) matches Some(c) ==> pos <= c < data.len(),
    decreases data.len() - pos, 1int,
{
    if pos < data.len() {
        lemma_filler_end_bounds(data, pos);
        let p = spec_filler_end(data, pos);
        if p < data.len() && !(data[p] == 125 || data[p] == 93) {
            lemma_json_value_bounds(data, p);
            if let Some(q) = json_value_end(data, p) {
                if p < q {
                    lemma_json_items_bounds(data, q, closer);
                }
            }
        }
    }
}

/// The depth walker passes a bracket level's items exactly: started at
/// the first byte after an opener, it reaches the level's closing
/// bracket, finishing one past it when the depth began at one and
/// otherwise carrying on past it one level shallower.
proof fn lemma_walker_passes_items(data: Seq<u8>, pos: int, closer: u8, depth: int)
    requires
        0 <= pos,
        1 <= depth,
        closer == 125 || closer == 93,
    ensures
        json_items_end(data, pos, closer) matches Some(c) ==> spec_skip_walker(data, pos, depth)
            == (if depth == 1 {
            Ok::<int, (TokenizerErrorType, int)>(c + 1)
        } else {
            spec_skip_walker(data, c + 1, depth - 1)
        }),
    decreases data.len() - pos,
{
    if pos < data.len() {
        lemma_filler_end_bounds(data, pos);
        let p = spec_filler_end(data, pos);
        if p < data.len() {
            let b = data[p];
            if !(b == 125 || b == 93) {
                if let Some(q) = json_value_end(data, p) {
                    lemma_json_value_bounds(data, p);
                    if b == 123 {
                        if let Some(c1) = json_items_end(data, p + 1, 125) {
                            lemma_json_items_bounds(data, p + 1, 125);
                            lemma_walker_passes_items(data, p + 1, 125, depth + 1);
                            lemma_walker_passes_items(data, q, closer, depth);
                        }
                    } else if b == 91 {
                        if let Some(c1) = json_items_end(data, p + 1, 93) {
                            lemma_json_items_bounds(data, p + 1, 93);
                            lemma_walker_passes_items(data, p + 1, 93, depth + 1);
                            lemma_walker_passes_items(data, q, closer, depth);
                        }
                    } else {
                        if b == 34 {
                            lemma_string_scan_bounds(data, p + 1, false);
                        } else if b == 45 || is_digit(b) {
                            lemma_number_end_bounds(data, p + 1);
                        }
                        lemma_walker_passes_items(data, q, closer, depth);
                    }
                }
            }
        }
    }
}

/// Skipping one value lands exactly at the value's end: on any input
/// holding one whole JSON value after leading whitespace, the skip
/// engine leaves the cursor one byte past the value's last byte.  With
/// only whitespace trailing the value, that offset is the input length
/// less the trailing whitespace.
pub proof fn lemma_skip_value_ends_value(data: Seq<u8>, pos: int)
    requires
        0 <= pos <= data.len(),
    ensures
        json_value_end(data, spec_ws_end(data, pos)) matches Some(e) ==> spec_skip_over_value(
            data,
            pos,
        ) == Ok::<int, (TokenizerErrorType, int)>(e),
{
    lemma_ws_end_bounds(data, pos);
    let p = spec_ws_end(data, pos);
    if p < data.len() {
        lemma_json_value_bounds(data, p);
        let b = data[p];
        if b == 123 {
            if let Some(c) = json_items_end(data, p + 1, 125) {
                lemma_walker_passes_items(data, p + 1, 125, 1);
            }
        } else if b == 91 {
            if let Some(c) = json_items_end(data, p + 1, 93) {
                lemma_walker_passes_items(data, p + 1, 93, 1);
            }
        } else if b == 34 {
            lemma_string_scan_bounds(data, p + 1, false);
        } else if b == 45 || is_digit(b) {
            lemma_number_end_bounds(data, p + 1);
        }
    }
}



/// The bracket pairs the scanning walker is invoked with.
pub open spec fn xpair_ok(deep: u8, shallow: u8) -> bool {
    (deep == 123 && shallow == 125) || (deep == 91 && shallow == 93)
}

/// A byte the scanning walker's predicate reacts to.
pub open spec fn is_xspecial(b: u8, deep: u8, shallow: u8) -> bool {
    b == deep || b == shallow || b == 34 || b == 92
}

/// The scanning walker steps over a run of bytes its predicate ignores
/// without moving its state.
proof fn lemma_xwalk_plain_run(data: Seq<u8>, pos: int, q: int, deep: u8, shallow: u8, s: SkipState)
    requires
        0 <= pos <= q <= data.len(),
        !s.in_str,
        forall|i: int| pos <= i < q ==> !is_xspecial(#[trigger] data[i], deep, shallow),
    ensures
        spec_xwalk(data, pos, deep, shallow, s) == spec_xwalk(data, q, deep, shallow, s),
    decreases q - pos,
{
    if pos < q {
        lemma_xwalk_plain_run(data, pos + 1, q, deep, shallow, s);
    }
}

/// The scanning walker crosses a string body to its closing quote,
/// leaving the string state behind and the depth untouched.
proof fn lemma_xwalk_string_body(data: Seq<u8>, i: int, deep: u8, shallow: u8, s: SkipState)
    requires
        0 <= i,
        s.in_str,
        xpair_ok(deep, shallow),
    ensures
        spec_string_scan(data, i, false) matches Some(sq) ==> spec_xwalk(data, i, deep, shallow, s)
            == spec_xwalk(
            data,
            sq + 1,
            deep,
            shallow,
            SkipState { depth: s.depth, in_str: false },
        ),
    decreases data.len() - i,
{
    if 0 <= i < data.len() {
        if data[i] == 92 {
            assert(spec_string_scan(data, i, false) == spec_string_scan(data, i + 1, true));
            if i + 1 < data.len() {
                assert(spec_string_scan(data, i + 1, true) == spec_string_scan(data, i + 2, false));
                lemma_xwalk_string_body(data, i + 2, deep, shallow, s);
            }
        } else if data[i] != 34 {
            lemma_xwalk_string_body(data, i + 1, deep, shallow, s);
        }
    }
}

/// The stop-and-resume string model agrees with the shielded quote scan.
proof fn lemma_xstring_agrees_with_scan(data: Seq<u8>, i: int)
    requires
        0 <= i,
    ensures
        spec_string_scan(data, i, false) matches Some(sq) ==> spec_xstring(data, i) == Ok::<
            int,
            int,
        >(sq + 1),
    decreases data.len() - i,
{
    if 0 <= i < data.len() {
        if data[i] == 92 {
            assert(spec_string_scan(data, i, false) == spec_string_scan(data, i + 1, true));
            if i + 1 < data.len() {
                assert(spec_string_scan(data, i + 1, true) == spec_string_scan(data, i + 2, false));
                lemma_xstring_agrees_with_scan(data, i + 2);
            }
        } else if data[i] != 34 {
            lemma_xstring_agrees_with_scan(data, i + 1);
        }
    }
}

/// The scanning walker passes over one whole value, returning to the
/// same depth outside any string: the nesting it meets inside is
/// balanced, strings shield their contents, and bytes of the other
/// bracket pair are plain bytes to it.
proof fn lemma_xwalk_passes_value(data: Seq<u8>, pos: int, deep: u8, shallow: u8, s: SkipState)
    requires
        0 <= pos,
        !s.in_str,
        1 <= s.depth,
        xpair_ok(deep, shallow),
        s.depth + data.len() - pos <= u64::MAX,
    ensures
        json_value_end(data, pos) matches Some(q) ==> spec_xwalk(data, pos, deep, shallow, s)
            == spec_xwalk(data, q, deep, shallow, s),
    decreases data.len() - pos, 0int,
{
    if pos < data.len() {
        let b = data[pos];
        lemma_json_value_bounds(data, pos);
        if b == 123 || b == 91 {
            let lvl_closer: u8 = if b == 123 {
                125
            } else {
                93
            };
            if let Some(c) = json_items_end(data, pos + 1, lvl_closer) {
                lemma_json_items_bounds(data, pos + 1, lvl_closer);
                if b == deep {
                    let s1 = SkipState { depth: (s.depth + 1) as u64, in_str: false };
                    lemma_xwalk_passes_items(data, pos + 1, lvl_closer, deep, shallow, s1);
                } else {
                    lemma_xwalk_passes_items(data, pos + 1, lvl_closer, deep, shallow, s);
                }
            }
        } else if b == 34 {
            if let Some(sq) = spec_string_scan(data, pos + 1, false) {
                lemma_string_scan_bounds(data, pos + 1, false);
                lemma_xwalk_string_body(
                    data,
                    pos + 1,
                    deep,
                    shallow,
                    SkipState { depth: s.depth, in_str: true },
                );
            }
        } else if b == 45 || is_digit(b) {
            let q = spec_number_end(data, pos + 1);
            lemma_number_end_bounds(data, pos + 1);
            lemma_number_prefix(data, pos + 1);
            lemma_xwalk_plain_run(data, pos, q, deep, shallow, s);
        } else if b == 116 || b == 84 {
            if let Ok(q) = spec_skip_true(data, pos) {
                lemma_xwalk_plain_run(data, pos, q, deep, shallow, s);
            }
        } else if b == 102 || b == 70 {
            if let Ok(q) = spec_skip_false(data, pos) {
                lemma_xwalk_plain_run(data, pos, q, deep, shallow, s);
            }
        } else if b == 110 || b == 78 {
            if let Ok(q) = spec_skip_null(data, pos) {
                lemma_xwalk_plain_run(data, pos, q, deep, shallow, s);
            }
        }
    }
}

/// The scanning walker passes a bracket level's items: it reaches the
/// level's closing bracket, stopping one past it when the closer belongs
/// to its own pair and the depth returns to zero, carrying on one level
/// shallower when it does not, and treating a closer of the other pair
/// as a plain byte.
proof fn lemma_xwalk_passes_items(
    data: Seq<u8>,
    pos: int,
    closer: u8,
    deep: u8,
    shallow: u8,
    s: SkipState,
)
    requires
        0 <= pos,
        !s.in_str,
        1 <= s.depth,
        xpair_ok(deep, shallow),
        closer == 125 || closer == 93,
        s.depth + data.len() - pos <= u64::MAX,
    ensures
        json_items_end(data, pos, closer) matches Some(c) ==> (if closer == shallow {
            spec_xwalk(data, pos, deep, shallow, s) == (if s.depth == 1 {
                Ok::<int, int>(c + 1)
            } else {
                spec_xwalk(
                    data,
                    c + 1,
                    deep,
                    shallow,
                    SkipState { depth: (s.depth - 1) as u64, in_str: false },
                )
            })
        } else {
            spec_xwalk(data, pos, deep, shallow, s) == spec_xwalk(data, c + 1, deep, shallow, s)
        }),
    decreases data.len() - pos, 1int,
{
    if pos < data.len() {
        lemma_filler_end_bounds(data, pos);
        lemma_filler_prefix(data, pos);
        let p = spec_filler_end(data, pos);
        if p < data.len() {
            lemma_xwalk_plain_run(data, pos, p, deep, shallow, s);
            let b = data[p];
            if b == closer {
                // the level's own closing bracket
            } else if !(b == 125 || b == 93) {
                if let Some(q) = json_value_end(data, p) {
                    lemma_json_value_bounds(data, p);
                    lemma_xwalk_passes_value(data, p, deep, shallow, s);
                    if p < q && q <= data.len() {
                        lemma_xwalk_passes_items(data, q, closer, deep, shallow, s);
                    }
                }
            }
        }
    }
}

/// The scanning skip engine lands exactly at the value's end as well: on
/// any input holding one whole JSON value after leading whitespace, it
/// leaves the cursor one byte past the value's last byte.
pub proof fn lemma_xskip_value_ends_value(data: Seq<u8>, pos: int)
    requires
        0 <= pos <= data.len(),
        data.len() < u64::MAX,
    ensures
        spec_xnonws(data, pos) matches Some(j) ==> (json_value_end(data, j) matches Some(e)
            ==> spec_xskip_value(data, pos) == Ok::<int, (TokenizerErrorType, int)>(e)),
{
    lemma_xnonws_byte(data, pos);
    if let Some(j) = spec_xnonws(data, pos) {
        lemma_json_value_bounds(data, j);
        let b = data[j];
        if b == 123 || b == 91 {
            let lvl_closer: u8 = if b == 123 {
                125
            } else {
                93
            };
            let dp: u8 = if b == 123 {
                123
            } else {
                91
            };
            let sh: u8 = lvl_closer;
            if let Some(c) = json_items_end(data, j + 1, lvl_closer) {
                lemma_json_items_bounds(data, j + 1, lvl_closer);
                lemma_xwalk_passes_items(
                    data,
                    j + 1,
                    lvl_closer,
                    dp,
                    sh,
                    SkipState { depth: 1, in_str: false },
                );
            }
        } else if b == 34 {
            lemma_string_scan_bounds(data, j + 1, false);
            lemma_xstring_agrees_with_scan(data, j + 1);
        }
    }
}


} // verus!
