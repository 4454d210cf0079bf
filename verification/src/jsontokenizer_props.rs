//! Properties of the tokenizer, proved once and for all over the spec
//! model: what the byte views of the token kinds look like, that the
//! terminal token is idempotent, and that a clean scan's tokens tile the
//! input exactly.
//!
//! Several statements leave out inputs holding a stray zero byte: the
//! executable reader answers 0 both for a zero byte and for the end of
//! the input, so a zero byte inside the input ends a token early.

use crate::jsontokenizer_spec::{
    is_digit, lemma_stringescape_bounds, lemma_ws_end_bounds, spec_escstring_loop, spec_number_dot,
    spec_number_dot0, spec_number_e, spec_number_e0, spec_number_neg, spec_number_one,
    spec_number_zero, spec_step, spec_string, spec_string_escaped, spec_stringescape, spec_ws_end,
};
use crate::jsontokenizer_token::JsonTokenType;
use vstd::prelude::*;

verus! {

/// A byte that makes a numeric literal non-integer: a decimal point or an
/// exponent marker.
pub open spec fn is_number_mark(b: u8) -> bool {
    b == 46 || b == 101 || b == 69
}

/// The shape of an integer token's bytes: an optional minus, then either
/// a single zero or a nonzero digit followed by more digits.
pub open spec fn is_integer_view(s: Seq<u8>) -> bool {
    let d0: int = if s.len() > 0 && s[0] == 45 {
        1
    } else {
        0
    };
    &&& s.len() > d0
    &&& forall|i: int| d0 <= i < s.len() ==> is_digit(s[i])
    &&& (s[d0] == 48 ==> s.len() == d0 + 1)
}

/// Whether a decimal point or exponent marker occurs in the bytes.
pub open spec fn has_number_mark(s: Seq<u8>) -> bool {
    exists|i: int| 0 <= i < s.len() && is_number_mark(s[i])
}

/// The escaped-string scan only ever ends in an escaped-string token, one
/// past a closing quote inside the input.
proof fn lemma_escstring_loop_shape(data: Seq<u8>, pos: int)
    requires
        0 <= pos,
    ensures
        spec_escstring_loop(data, pos) matches Ok((k, e)) ==> k == JsonTokenType::EscString && pos
            < e <= data.len(),
    decreases data.len() - pos,
{
    if pos < data.len() && data[pos] != 0 {
        if data[pos] == 92 {
            lemma_stringescape_bounds(data, pos + 1);
            if let Ok(p2) = spec_stringescape(data, pos + 1) {
                lemma_escstring_loop_shape(data, p2);
            }
        } else if data[pos] != 34 {
            lemma_escstring_loop_shape(data, pos + 1);
        }
    }
}

/// A string body entered through an escape only ever ends in an
/// escaped-string token, past at least the escape code.
proof fn lemma_string_escaped_shape(data: Seq<u8>, pos: int)
    requires
        0 <= pos,
    ensures
        spec_string_escaped(data, pos) matches Ok((k, e)) ==> k == JsonTokenType::EscString && pos
            < e <= data.len(),
{
    lemma_stringescape_bounds(data, pos);
    if let Ok(p2) = spec_stringescape(data, pos) {
        lemma_escstring_loop_shape(data, p2);
    }
}

/// A string body yields a plain string exactly when no backslash occurs
/// before the closing quote, and an escaped string exactly when one does.
proof fn lemma_string_shape(data: Seq<u8>, pos: int)
    requires
        0 <= pos,
    ensures
        spec_string(data, pos) matches Ok((k, e)) ==> {
            &&& (k == JsonTokenType::String || k == JsonTokenType::EscString)
            &&& pos < e <= data.len()
            &&& (k == JsonTokenType::String ==> forall|i: int| pos <= i < e ==> data[i] != 92)
            &&& (k == JsonTokenType::EscString ==> exists|i: int| pos <= i < e && data[i] == 92)
        },
    decreases data.len() - pos,
{
    if pos < data.len() && data[pos] != 0 {
        if data[pos] == 92 {
            lemma_string_escaped_shape(data, pos + 1);
            if let Ok((k, e)) = spec_string_escaped(data, pos + 1) {
                assert(pos <= pos < e && data[pos] == 92);
            }
        } else if data[pos] != 34 {
            lemma_string_shape(data, pos + 1);
            if let Ok((k, e)) = spec_string(data, pos + 1) {
                if k == JsonTokenType::EscString {
                    let i = choose|i: int| pos + 1 <= i < e && data[i] == 92;
                    assert(pos <= i < e && data[i] == 92);
                }
            }
        }
    }
}

/// Exponent digits always close a non-integer number without stepping
/// back past their start.
proof fn lemma_number_e0_shape(data: Seq<u8>, pos: int)
    requires
        0 <= pos <= data.len(),
        forall|i: int| 0 <= i < data.len() ==> data[i] != 0,
    ensures
        spec_number_e0(data, pos) matches Ok((k, e)) ==> k == JsonTokenType::Number && pos <= e
            <= data.len(),
    decreases data.len() - pos,
{
    if pos < data.len() && is_digit(data[pos]) {
        lemma_number_e0_shape(data, pos + 1);
    }
}

/// An exponent always closes a non-integer number.
proof fn lemma_number_e_shape(data: Seq<u8>, pos: int)
    requires
        0 <= pos <= data.len(),
        forall|i: int| 0 <= i < data.len() ==> data[i] != 0,
    ensures
        spec_number_e(data, pos) matches Ok((k, e)) ==> k == JsonTokenType::Number && pos <= e
            <= data.len(),
{
    if pos < data.len() {
        lemma_number_e0_shape(data, pos + 1);
        if pos + 1 < data.len() {
            lemma_number_e0_shape(data, pos + 2);
        }
    }
}

/// Fraction digits always close a non-integer number.
proof fn lemma_number_dot0_shape(data: Seq<u8>, pos: int)
    requires
        0 <= pos <= data.len(),
        forall|i: int| 0 <= i < data.len() ==> data[i] != 0,
    ensures
        spec_number_dot0(data, pos) matches Ok((k, e)) ==> k == JsonTokenType::Number && pos <= e
            <= data.len(),
    decreases data.len() - pos,
{
    if pos < data.len() {
        if is_digit(data[pos]) {
            lemma_number_dot0_shape(data, pos + 1);
        } else if data[pos] == 101 || data[pos] == 69 {
            lemma_number_e_shape(data, pos + 1);
        }
    }
}

/// A fraction always closes a non-integer number.
proof fn lemma_number_dot_shape(data: Seq<u8>, pos: int)
    requires
        0 <= pos <= data.len(),
        forall|i: int| 0 <= i < data.len() ==> data[i] != 0,
    ensures
        spec_number_dot(data, pos) matches Ok((k, e)) ==> k == JsonTokenType::Number && pos <= e
            <= data.len(),
{
    if pos < data.len() {
        lemma_number_dot0_shape(data, pos + 1);
    }
}

/// After a leading zero the literal either stops at once as the integer
/// zero, or continues as a non-integer number whose mark sits right here.
proof fn lemma_number_zero_shape(data: Seq<u8>, pos: int)
    requires
        0 <= pos <= data.len(),
        forall|i: int| 0 <= i < data.len() ==> data[i] != 0,
    ensures
        spec_number_zero(data, pos) matches Ok((k, e)) ==> {
            &&& pos <= e <= data.len()
            &&& (k == JsonTokenType::Integer || k == JsonTokenType::Number)
            &&& (k == JsonTokenType::Integer ==> e == pos)
            &&& (k == JsonTokenType::Number ==> pos < e && is_number_mark(data[pos]))
        },
{
    if pos < data.len() {
        if data[pos] == 46 {
            lemma_number_dot_shape(data, pos + 1);
        } else if data[pos] == 101 || data[pos] == 69 {
            lemma_number_e_shape(data, pos + 1);
        }
    }
}

/// After a leading nonzero digit the literal either closes as an integer
/// over digits alone, or continues as a non-integer number holding a
/// mark.
proof fn lemma_number_one_shape(data: Seq<u8>, pos: int)
    requires
        0 <= pos <= data.len(),
        forall|i: int| 0 <= i < data.len() ==> data[i] != 0,
    ensures
        spec_number_one(data, pos) matches Ok((k, e)) ==> {
            &&& pos <= e <= data.len()
            &&& (k == JsonTokenType::Integer || k == JsonTokenType::Number)
            &&& (k == JsonTokenType::Integer ==> forall|i: int| pos <= i < e ==> is_digit(data[i]))
            &&& (k == JsonTokenType::Number ==> exists|i: int|
                pos <= i < e && is_number_mark(data[i]))
        },
    decreases data.len() - pos,
{
    if pos < data.len() {
        if is_digit(data[pos]) {
            lemma_number_one_shape(data, pos + 1);
            if let Ok((k, e)) = spec_number_one(data, pos + 1) {
                if k == JsonTokenType::Number {
                    let i = choose|i: int| pos + 1 <= i < e && is_number_mark(data[i]);
                    assert(pos <= i < e && is_number_mark(data[i]));
                }
            }
        } else if data[pos] == 46 {
            lemma_number_dot_shape(data, pos + 1);
            if let Ok((k, e)) = spec_number_dot(data, pos + 1) {
                assert(pos <= pos < e && is_number_mark(data[pos]));
            }
        } else if data[pos] == 101 || data[pos] == 69 {
            lemma_number_e_shape(data, pos + 1);
            if let Ok((k, e)) = spec_number_e(data, pos + 1) {
                assert(pos <= pos < e && is_number_mark(data[pos]));
            }
        }
    }
}

/// After a minus sign the literal is a digit-led integer or a number
/// holding a mark; a zero-led one stops right after the zero.
proof fn lemma_number_neg_shape(data: Seq<u8>, pos: int)
    requires
        0 <= pos <= data.len(),
        forall|i: int| 0 <= i < data.len() ==> data[i] != 0,
    ensures
        spec_number_neg(data, pos) matches Ok((k, e)) ==> {
            &&& pos < e <= data.len()
            &&& (k == JsonTokenType::Integer || k == JsonTokenType::Number)
            &&& (k == JsonTokenType::Integer ==> (forall|i: int| pos <= i < e ==> is_digit(data[i]))
                && (data[pos] == 48 ==> e == pos + 1))
            &&& (k == JsonTokenType::Number ==> exists|i: int|
                pos <= i < e && is_number_mark(data[i]))
        },
{
    if pos < data.len() {
        if data[pos] == 48 {
            lemma_number_zero_shape(data, pos + 1);
            if let Ok((k, e)) = spec_number_zero(data, pos + 1) {
                if k == JsonTokenType::Number {
                    assert(pos <= pos + 1 < e && is_number_mark(data[pos + 1]));
                }
            }
        } else if 49 <= data[pos] <= 57 {
            lemma_number_one_shape(data, pos + 1);
            if let Ok((k, e)) = spec_number_one(data, pos + 1) {
                if k == JsonTokenType::Number {
                    let i = choose|i: int| pos + 1 <= i < e && is_number_mark(data[i]);
                    assert(pos <= i < e && is_number_mark(data[i]));
                }
            }
        }
    }
}

/// One `step` stays within the input: the token starts at or after the
/// scan position and every token but the terminal covers at least one
/// byte.
pub proof fn lemma_step_bounds(data: Seq<u8>, pos: int)
    requires
        0 <= pos <= data.len(),
    ensures
        spec_step(data, pos) matches Ok((k, start, end)) ==> {
            &&& pos <= start <= end <= data.len()
            &&& (k != JsonTokenType::End ==> start < end)
        },
{
    lemma_ws_end_bounds(data, pos);
    let start = spec_ws_end(data, pos);
    if start < data.len() {
        lemma_string_shape(data, start + 1);
        lemma_string_escaped_shape(data, start + 1);
        lemma_number_shapes_raw(data, start);
    }
}

/// Bounds for the numeric machines with no assumption on the bytes:
/// they never step back before their start nor past the end.
proof fn lemma_number_shapes_raw(data: Seq<u8>, start: int)
    requires
        0 <= start < data.len(),
    ensures
        spec_number_neg(data, start + 1) matches Ok((k, e)) ==> start + 1 <= e <= data.len(),
        spec_number_zero(data, start + 1) matches Ok((k, e)) ==> start + 1 <= e <= data.len(),
        spec_number_one(data, start + 1) matches Ok((k, e)) ==> start + 1 <= e <= data.len(),
{
    lemma_number_zero_raw(data, start + 1);
    lemma_number_one_raw(data, start + 1);
    if start + 1 < data.len() {
        lemma_number_zero_raw(data, start + 2);
        lemma_number_one_raw(data, start + 2);
    }
}

/// Bounds for the zero-led machine with no assumption on the bytes.
proof fn lemma_number_zero_raw(data: Seq<u8>, pos: int)
    requires
        0 <= pos <= data.len(),
    ensures
        spec_number_zero(data, pos) matches Ok((k, e)) ==> pos <= e <= data.len(),
{
    if pos < data.len() {
        if data[pos] == 46 {
            lemma_number_dot_raw(data, pos + 1);
        } else if data[pos] == 101 || data[pos] == 69 {
            lemma_number_e_raw(data, pos + 1);
        }
    }
}

/// Bounds for the nonzero-led machine with no assumption on the bytes.
proof fn lemma_number_one_raw(data: Seq<u8>, pos: int)
    requires
        0 <= pos <= data.len(),
    ensures
        spec_number_one(data, pos) matches Ok((k, e)) ==> pos <= e <= data.len(),
    decreases data.len() - pos,
{
    if pos < data.len() {
        if data[pos] != 0 && is_digit(data[pos]) {
            lemma_number_one_raw(data, pos + 1);
        } else if data[pos] == 46 {
            lemma_number_dot_raw(data, pos + 1);
        } else if data[pos] == 101 || data[pos] == 69 {
            lemma_number_e_raw(data, pos + 1);
        }
    }
}

/// Bounds for the fraction machine with no assumption on the bytes.
proof fn lemma_number_dot_raw(data: Seq<u8>, pos: int)
    requires
        0 <= pos <= data.len(),
    ensures
        spec_number_dot(data, pos) matches Ok((k, e)) ==> pos <= e <= data.len(),
{
    if pos < data.len() {
        lemma_number_dot0_raw(data, pos + 1);
    }
}

/// Bounds for the fraction-digit machine with no assumption on the bytes.
proof fn lemma_number_dot0_raw(data: Seq<u8>, pos: int)
    requires
        0 <= pos <= data.len(),
    ensures
        spec_number_dot0(data, pos) matches Ok((k, e)) ==> pos <= e <= data.len(),
    decreases data.len() - pos,
{
    if pos < data.len() {
        if data[pos] != 0 && is_digit(data[pos]) {
            lemma_number_dot0_raw(data, pos + 1);
        } else if data[pos] == 101 || data[pos] == 69 {
            lemma_number_e_raw(data, pos + 1);
        }
    }
}

/// Bounds for the exponent machine with no assumption on the bytes.
proof fn lemma_number_e_raw(data: Seq<u8>, pos: int)
    requires
        0 <= pos <= data.len(),
    ensures
        spec_number_e(data, pos) matches Ok((k, e)) ==> pos <= e <= data.len(),
{
    if pos < data.len() {
        lemma_number_e0_raw(data, pos + 1);
        if pos + 1 < data.len() {
            lemma_number_e0_raw(data, pos + 2);
        }
    }
}

/// Bounds for the exponent-digit machine with no assumption on the bytes.
proof fn lemma_number_e0_raw(data: Seq<u8>, pos: int)
    requires
        0 <= pos <= data.len(),
    ensures
        spec_number_e0(data, pos) matches Ok((k, e)) ==> pos <= e <= data.len(),
    decreases data.len() - pos,
{
    if pos < data.len() && data[pos] != 0 && is_digit(data[pos]) {
        lemma_number_e0_raw(data, pos + 1);
    }
}

/// The terminal token is idempotent: at the end of the input `step`
/// always answers the terminal with an empty byte view and an unmoved
/// offset, and on an input free of stray zero bytes the terminal only
/// ever arises at the end of the input.  So once `step` has returned the
/// terminal, every further `step` returns it again.
pub proof fn lemma_end_is_idempotent(data: Seq<u8>, pos: int)
    requires
        0 <= pos <= data.len(),
        forall|i: int| 0 <= i < data.len() ==> data[i] != 0,
    ensures
        pos == data.len() ==> spec_step(data, pos) == Ok::<
            (JsonTokenType, int, int),
            (crate::jsontokenizer::TokenizerErrorType, int),
        >((JsonTokenType::End, pos, pos)),
        spec_step(data, pos) matches Ok((k, start, end)) ==> (k == JsonTokenType::End ==> start
            == data.len() && end == data.len()),
{
    lemma_ws_end_bounds(data, pos);
    let start = spec_ws_end(data, pos);
    if start < data.len() {
        lemma_string_shape(data, start + 1);
        lemma_string_escaped_shape(data, start + 1);
        lemma_number_kind_not_end(data, start);
    }
}

/// No numeric machine ever answers the terminal kind.
proof fn lemma_number_kind_not_end(data: Seq<u8>, start: int)
    requires
        0 <= start < data.len(),
    ensures
        spec_number_neg(data, start + 1) matches Ok((k, e)) ==> k != JsonTokenType::End,
        spec_number_zero(data, start + 1) matches Ok((k, e)) ==> k != JsonTokenType::End,
        spec_number_one(data, start + 1) matches Ok((k, e)) ==> k != JsonTokenType::End,
{
    lemma_number_zero_kind(data, start + 1);
    lemma_number_one_kind(data, start + 1);
    if start + 1 < data.len() {
        lemma_number_zero_kind(data, start + 2);
        lemma_number_one_kind(data, start + 2);
    }
}

/// The zero-led machine answers an integer or a number.
proof fn lemma_number_zero_kind(data: Seq<u8>, pos: int)
    requires
        0 <= pos,
    ensures
        spec_number_zero(data, pos) matches Ok((k, e)) ==> k == JsonTokenType::Integer || k
            == JsonTokenType::Number,
{
    if pos < data.len() {
        if data[pos] == 46 {
            lemma_number_dot_kind(data, pos + 1);
        } else if data[pos] == 101 || data[pos] == 69 {
            lemma_number_e_kind(data, pos + 1);
        }
    }
}

/// The nonzero-led machine answers an integer or a number.
proof fn lemma_number_one_kind(data: Seq<u8>, pos: int)
    requires
        0 <= pos,
    ensures
        spec_number_one(data, pos) matches Ok((k, e)) ==> k == JsonTokenType::Integer || k
            == JsonTokenType::Number,
    decreases data.len() - pos,
{
    if pos < data.len() {
        if data[pos] != 0 && is_digit(data[pos]) {
            lemma_number_one_kind(data, pos + 1);
        } else if data[pos] == 46 {
            lemma_number_dot_kind(data, pos + 1);
        } else if data[pos] == 101 || data[pos] == 69 {
            lemma_number_e_kind(data, pos + 1);
        }
    }
}

/// The fraction machine answers a number.
proof fn lemma_number_dot_kind(data: Seq<u8>, pos: int)
    requires
        0 <= pos,
    ensures
        spec_number_dot(data, pos) matches Ok((k, e)) ==> k == JsonTokenType::Number,
{
    lemma_number_dot0_kind(data, pos + 1);
}

/// The fraction-digit machine answers a number.
proof fn lemma_number_dot0_kind(data: Seq<u8>, pos: int)
    requires
        0 <= pos,
    ensures
        spec_number_dot0(data, pos) matches Ok((k, e)) ==> k == JsonTokenType::Number,
    decreases data.len() - pos,
{
    if pos < data.len() {
        if data[pos] != 0 && is_digit(data[pos]) {
            lemma_number_dot0_kind(data, pos + 1);
        } else if data[pos] == 101 || data[pos] == 69 {
            lemma_number_e_kind(data, pos + 1);
        }
    }
}

/// The exponent machine answers a number.
proof fn lemma_number_e_kind(data: Seq<u8>, pos: int)
    requires
        0 <= pos,
    ensures
        spec_number_e(data, pos) matches Ok((k, e)) ==> k == JsonTokenType::Number,
{
    lemma_number_e0_kind(data, pos + 1);
    lemma_number_e0_kind(data, pos + 2);
}

/// The exponent-digit machine answers a number.
proof fn lemma_number_e0_kind(data: Seq<u8>, pos: int)
    requires
        0 <= pos,
    ensures
        spec_number_e0(data, pos) matches Ok((k, e)) ==> k == JsonTokenType::Number,
    decreases data.len() - pos,
{
    if pos < data.len() && data[pos] != 0 && is_digit(data[pos]) {
        lemma_number_e0_kind(data, pos + 1);
    }
}

/// A plain string token's bytes hold no backslash, and an escaped string
/// token's bytes hold at least one, whatever the input.
pub proof fn lemma_string_token_classes(data: Seq<u8>, pos: int)
    requires
        0 <= pos <= data.len(),
    ensures
        spec_step(data, pos) matches Ok((k, start, end)) ==> {
            &&& (k == JsonTokenType::String ==> forall|i: int| start <= i < end ==> data[i] != 92)
            &&& (k == JsonTokenType::EscString ==> exists|i: int|
                start <= i < end && data[i] == 92)
        },
{
    lemma_ws_end_bounds(data, pos);
    let start = spec_ws_end(data, pos);
    if start < data.len() {
        lemma_string_shape(data, start + 1);
        lemma_number_kind_not_end(data, start);
        lemma_number_strnum_kinds(data, start);
        if data[start] == 34 {
            if let Ok((k, e)) = spec_string(data, start + 1) {
                if k == JsonTokenType::EscString {
                    let i = choose|i: int| start + 1 <= i < e && data[i] == 92;
                    assert(start <= i < e && data[i] == 92);
                }
            }
        }
    }
}

/// The numeric machines only ever answer the two numeric kinds.
proof fn lemma_number_strnum_kinds(data: Seq<u8>, start: int)
    requires
        0 <= start < data.len(),
    ensures
        spec_number_neg(data, start + 1) matches Ok((k, e)) ==> k == JsonTokenType::Integer || k
            == JsonTokenType::Number,
        spec_number_zero(data, start + 1) matches Ok((k, e)) ==> k == JsonTokenType::Integer || k
            == JsonTokenType::Number,
        spec_number_one(data, start + 1) matches Ok((k, e)) ==> k == JsonTokenType::Integer || k
            == JsonTokenType::Number,
{
    lemma_number_zero_kind(data, start + 1);
    lemma_number_one_kind(data, start + 1);
    if start + 1 < data.len() {
        lemma_number_zero_kind(data, start + 2);
        lemma_number_one_kind(data, start + 2);
    }
}

/// An integer token's bytes are an optional minus followed by a single
/// zero or by a nonzero digit and further digits; a non-integer number
/// token's bytes contain a decimal point or an exponent marker.  Holds on
/// inputs free of stray zero bytes.
pub proof fn lemma_number_token_shapes(data: Seq<u8>, pos: int)
    requires
        0 <= pos <= data.len(),
        forall|i: int| 0 <= i < data.len() ==> data[i] != 0,
    ensures
        spec_step(data, pos) matches Ok((k, start, end)) ==> {
            &&& (k == JsonTokenType::Integer ==> is_integer_view(data.subrange(start, end)))
            &&& (k == JsonTokenType::Number ==> has_number_mark(data.subrange(start, end)))
        },
{
    lemma_ws_end_bounds(data, pos);
    let start = spec_ws_end(data, pos);
    if start < data.len() {
        let b = data[start];
        lemma_string_shape(data, start + 1);
        if b == 45 {
            lemma_number_neg_shape(data, start + 1);
            if let Ok((k, e)) = spec_number_neg(data, start + 1) {
                let s = data.subrange(start, e);
                if k == JsonTokenType::Integer {
                    assert(s[0] == 45);
                    assert(forall|i: int| 1 <= i < s.len() ==> is_digit(#[trigger] s[i]));
                    assert(s[1] == data[start + 1]);
                } else {
                    let i = choose|i: int| start + 1 <= i < e && is_number_mark(data[i]);
                    assert(s[i - start] == data[i]);
                }
            }
        } else if b == 48 {
            lemma_number_zero_shape(data, start + 1);
            if let Ok((k, e)) = spec_number_zero(data, start + 1) {
                let s = data.subrange(start, e);
                if k == JsonTokenType::Integer {
                    assert(s[0] == 48 && s.len() == 1);
                } else {
                    assert(s[1] == data[start + 1]);
                }
            }
        } else if 49 <= b <= 57 {
            lemma_number_one_shape(data, start + 1);
            if let Ok((k, e)) = spec_number_one(data, start + 1) {
                let s = data.subrange(start, e);
                if k == JsonTokenType::Integer {
                    assert(s[0] == b && is_digit(b));
                    assert(forall|i: int| 1 <= i < s.len() ==> is_digit(#[trigger] s[i]));
                } else {
                    let i = choose|i: int| start + 1 <= i < e && is_number_mark(data[i]);
                    assert(s[i - start] == data[i]);
                }
            }
        }
    }
}


/// Whether a scan from `pos` reaches the terminal token without error.
pub open spec fn spec_run_ok(data: Seq<u8>, pos: int) -> bool
    decreases data.len() + 1 - pos,
    when 0 <= pos <= data.len()
    via spec_run_ok_decreases
{
    match spec_step(data, pos) {
        Ok((k, start, end)) => k == JsonTokenType::End || spec_run_ok(data, end),
        Err(_) => false,
    }
}

#[via_fn]
proof fn spec_run_ok_decreases(data: Seq<u8>, pos: int) {
    lemma_step_bounds(data, pos);
}

/// The offset one past the terminal token of a clean scan from `pos`.
pub open spec fn spec_run_stop(data: Seq<u8>, pos: int) -> int
    decreases data.len() + 1 - pos,
    when 0 <= pos <= data.len()
    via spec_run_stop_decreases
{
    match spec_step(data, pos) {
        Ok((k, start, end)) => if k == JsonTokenType::End {
            end
        } else {
            spec_run_stop(data, end)
        },
        Err(_) => pos,
    }
}

#[via_fn]
proof fn spec_run_stop_decreases(data: Seq<u8>, pos: int) {
    lemma_step_bounds(data, pos);
}

/// The bytes a scan from `pos` walks over: each step contributes the
/// whitespace it skipped and then its token's byte view, in order, up to
/// and including the terminal token.
pub open spec fn spec_run_bytes(data: Seq<u8>, pos: int) -> Seq<u8>
    decreases data.len() + 1 - pos,
    when 0 <= pos <= data.len()
    via spec_run_bytes_decreases
{
    match spec_step(data, pos) {
        Ok((k, start, end)) => data.subrange(pos, start) + data.subrange(start, end) + (
        if k == JsonTokenType::End {
            Seq::<u8>::empty()
        } else {
            spec_run_bytes(data, end)
        }),
        Err(_) => Seq::<u8>::empty(),
    }
}

#[via_fn]
proof fn spec_run_bytes_decreases(data: Seq<u8>, pos: int) {
    lemma_step_bounds(data, pos);
}

/// For every clean token sequence: concatenating each step's skipped
/// whitespace and its token's byte view, in order, up to and including
/// the terminal token, yields exactly the input bytes from the scan's
/// start to where the terminal stood.
pub proof fn lemma_tokens_tile_input(data: Seq<u8>, pos: int)
    requires
        0 <= pos <= data.len(),
        spec_run_ok(data, pos),
    ensures
        pos <= spec_run_stop(data, pos) <= data.len(),
        spec_run_bytes(data, pos) == data.subrange(pos, spec_run_stop(data, pos)),
    decreases data.len() + 1 - pos,
{
    lemma_step_bounds(data, pos);
    if let Ok((k, start, end)) = spec_step(data, pos) {
        if k == JsonTokenType::End {
            assert(data.subrange(pos, start) + data.subrange(start, end) + Seq::<u8>::empty()
                =~= data.subrange(pos, end));
        } else {
            lemma_tokens_tile_input(data, end);
            let stop = spec_run_stop(data, end);
            assert(data.subrange(pos, start) + data.subrange(start, end) + data.subrange(
                end,
                stop,
            ) =~= data.subrange(pos, stop));
        }
    }
}

/// On an input free of stray zero bytes, a clean scan's terminal token
/// stands at the very end of the input, so the concatenation rebuilds the
/// whole rest of the input, byte for byte.
pub proof fn lemma_clean_run_rebuilds_input(data: Seq<u8>, pos: int)
    requires
        0 <= pos <= data.len(),
        forall|i: int| 0 <= i < data.len() ==> data[i] != 0,
        spec_run_ok(data, pos),
    ensures
        spec_run_stop(data, pos) == data.len(),
        spec_run_bytes(data, pos) == data.subrange(pos, data.len() as int),
    decreases data.len() + 1 - pos,
{
    lemma_tokens_tile_input(data, pos);
    lemma_step_bounds(data, pos);
    lemma_end_is_idempotent(data, pos);
    if let Ok((k, start, end)) = spec_step(data, pos) {
        if k != JsonTokenType::End {
            lemma_clean_run_rebuilds_input(data, end);
        }
    }
}


} // verus!
