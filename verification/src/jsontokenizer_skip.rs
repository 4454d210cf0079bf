//! The scalar skip engine: fast-forward past one whole JSON value without
//! materializing its contents, keeping bracket depth and string-escape
//! state.  Each routine is proved to land exactly where its spec-model
//! counterpart in `jsontokenizer_spec` says.

use crate::jsontokenizer::{JsonTokenizer, TokenizerErrorType};
use crate::jsontokenizer_spec::{
    spec_filler_end, spec_number_end, spec_skip_false, spec_skip_null, spec_skip_number,
    spec_skip_over_value, spec_skip_string, spec_skip_true, spec_skip_walker, spec_string_scan,
    spec_ws_end,
};
use vstd::prelude::*;
use vstd::slice::slice_index_get;

verus! {

/// Skip one whole string: `pos` sits on the opening quote; land one past
/// the closing quote, honouring backslash escapes.
fn skip_string(data: &[u8], pos: usize) -> (r: Result<usize, (TokenizerErrorType, usize)>)
    ensures
        r matches Ok(q) ==> pos < q <= data@.len(),
        r matches Err((et, ep)) ==> ep <= data@.len(),
        match spec_skip_string(data@, pos as int) {
            Ok(q) => r matches Ok(u) && u == q,
            Err((et, ep)) => r matches Err(t) && t.0 == et && t.1 == ep,
        },
{
    let len = data.len();
    if pos >= len {
        return Err((TokenizerErrorType::UnexpectedEndOfInput, len));
    }
    let mut i: usize = pos + 1;
    let mut esc = false;
    while i < len
        invariant
            pos + 1 <= i <= len,
            len == data@.len(),
            spec_string_scan(data@, pos + 1, false) == spec_string_scan(data@, i as int, esc),
        decreases len - i,
    {
        let c = *slice_index_get(data, i);
        if esc {
            esc = false;
        } else if c == 34 {
            return Ok(i + 1);
        } else if c == 92 {
            esc = true;
        }
        i += 1;
    }
    Err((TokenizerErrorType::UnexpectedEndOfInput, len))
}

/// The first offset at or after `pos` holding a byte no number contains.
fn scan_number_end(data: &[u8], pos: usize) -> (r: usize)
    requires
        pos <= data@.len(),
    ensures
        r == spec_number_end(data@, pos as int),
        pos <= r <= data@.len(),
{
    let len = data.len();
    let mut i: usize = pos;
    while i < len
        invariant
            pos <= i <= len,
            len == data@.len(),
            spec_number_end(data@, pos as int) == spec_number_end(data@, i as int),
        ensures
            pos <= i <= len,
            i as int == spec_number_end(data@, pos as int),
        decreases len - i,
    {
        let c = *slice_index_get(data, i);
        let numeric = (48 <= c && c <= 57) || c == 46 || c == 101 || c == 69 || c == 43 || c == 45;
        if !numeric {
            break ;
        }
        i += 1;
    }
    i
}

/// Skip one whole number: `pos` sits on its first byte; land on the first
/// byte after it that no number contains.
fn skip_number(data: &[u8], pos: usize) -> (r: Result<usize, (TokenizerErrorType, usize)>)
    ensures
        r matches Ok(q) ==> pos < q <= data@.len(),
        r matches Err((et, ep)) ==> ep <= data@.len(),
        match spec_skip_number(data@, pos as int) {
            Ok(q) => r matches Ok(u) && u == q,
            Err((et, ep)) => r matches Err(t) && t.0 == et && t.1 == ep,
        },
{
    let len = data.len();
    if pos >= len {
        return Err((TokenizerErrorType::UnexpectedEndOfInput, len));
    }
    Ok(scan_number_end(data, pos + 1))
}

/// Skip the keyword `true`, case-insensitively: `pos` sits on its leading
/// byte.
fn skip_true(data: &[u8], pos: usize) -> (r: Result<usize, (TokenizerErrorType, usize)>)
    ensures
        r matches Ok(q) ==> pos < q <= data@.len(),
        r matches Err((et, ep)) ==> ep <= data@.len(),
        match spec_skip_true(data@, pos as int) {
            Ok(q) => r matches Ok(u) && u == q,
            Err((et, ep)) => r matches Err(t) && t.0 == et && t.1 == ep,
        },
{
    let len = data.len();
    if pos >= len || pos + 1 >= len {
        return Err((TokenizerErrorType::UnexpectedEndOfInput, len));
    }
    let c1 = *slice_index_get(data, pos + 1);
    if !(c1 == 114 || c1 == 82) {
        return Err((TokenizerErrorType::UnexpectedCharInTrueLiteral, pos));
    }
    if pos + 2 >= len {
        return Err((TokenizerErrorType::UnexpectedEndOfInput, len));
    }
    let c2 = *slice_index_get(data, pos + 2);
    if !(c2 == 117 || c2 == 85) {
        return Err((TokenizerErrorType::UnexpectedCharInTrueLiteral, pos));
    }
    if pos + 3 >= len {
        return Err((TokenizerErrorType::UnexpectedEndOfInput, len));
    }
    let c3 = *slice_index_get(data, pos + 3);
    if !(c3 == 101 || c3 == 69) {
        return Err((TokenizerErrorType::UnexpectedCharInTrueLiteral, pos));
    }
    Ok(pos + 4)
}

/// Skip the keyword `false`, case-insensitively: `pos` sits on its leading
/// byte.
fn skip_false(data: &[u8], pos: usize) -> (r: Result<usize, (TokenizerErrorType, usize)>)
    ensures
        r matches Ok(q) ==> pos < q <= data@.len(),
        r matches Err((et, ep)) ==> ep <= data@.len(),
        match spec_skip_false(data@, pos as int) {
            Ok(q) => r matches Ok(u) && u == q,
            Err((et, ep)) => r matches Err(t) && t.0 == et && t.1 == ep,
        },
{
    let len = data.len();
    if pos >= len || pos + 1 >= len {
        return Err((TokenizerErrorType::UnexpectedEndOfInput, len));
    }
    let c1 = *slice_index_get(data, pos + 1);
    if !(c1 == 97 || c1 == 65) {
        return Err((TokenizerErrorType::UnexpectedCharInFalseLiteral, pos));
    }
    if pos + 2 >= len {
        return Err((TokenizerErrorType::UnexpectedEndOfInput, len));
    }
    let c2 = *slice_index_get(data, pos + 2);
    if !(c2 == 108 || c2 == 76) {
        return Err((TokenizerErrorType::UnexpectedCharInFalseLiteral, pos));
    }
    if pos + 3 >= len {
        return Err((TokenizerErrorType::UnexpectedEndOfInput, len));
    }
    let c3 = *slice_index_get(data, pos + 3);
    if !(c3 == 115 || c3 == 83) {
        return Err((TokenizerErrorType::UnexpectedCharInFalseLiteral, pos));
    }
    if pos + 4 >= len {
        return Err((TokenizerErrorType::UnexpectedEndOfInput, len));
    }
    let c4 = *slice_index_get(data, pos + 4);
    if !(c4 == 101 || c4 == 69) {
        return Err((TokenizerErrorType::UnexpectedCharInFalseLiteral, pos));
    }
    Ok(pos + 5)
}

/// Skip the keyword `null`, case-insensitively: `pos` sits on its leading
/// byte.
fn skip_null(data: &[u8], pos: usize) -> (r: Result<usize, (TokenizerErrorType, usize)>)
    ensures
        r matches Ok(q) ==> pos < q <= data@.len(),
        r matches Err((et, ep)) ==> ep <= data@.len(),
        match spec_skip_null(data@, pos as int) {
            Ok(q) => r matches Ok(u) && u == q,
            Err((et, ep)) => r matches Err(t) && t.0 == et && t.1 == ep,
        },
{
    let len = data.len();
    if pos >= len || pos + 1 >= len {
        return Err((TokenizerErrorType::UnexpectedEndOfInput, len));
    }
    let c1 = *slice_index_get(data, pos + 1);
    if !(c1 == 117 || c1 == 85) {
        return Err((TokenizerErrorType::UnexpectedCharInNullLiteral, pos));
    }
    if pos + 2 >= len {
        return Err((TokenizerErrorType::UnexpectedEndOfInput, len));
    }
    let c2 = *slice_index_get(data, pos + 2);
    if !(c2 == 108 || c2 == 76) {
        return Err((TokenizerErrorType::UnexpectedCharInNullLiteral, pos));
    }
    if pos + 3 >= len {
        return Err((TokenizerErrorType::UnexpectedEndOfInput, len));
    }
    let c3 = *slice_index_get(data, pos + 3);
    if !(c3 == 108 || c3 == 76) {
        return Err((TokenizerErrorType::UnexpectedCharInNullLiteral, pos));
    }
    Ok(pos + 4)
}

/// The first offset at or after `pos` holding a byte that is neither
/// whitespace nor a delimiter the depth walker skips.
fn scan_filler_end(data: &[u8], pos: usize) -> (r: usize)
    requires
        pos <= data@.len(),
    ensures
        r == spec_filler_end(data@, pos as int),
        pos <= r <= data@.len(),
{
    let len = data.len();
    let mut i: usize = pos;
    while i < len
        invariant
            pos <= i <= len,
            len == data@.len(),
            spec_filler_end(data@, pos as int) == spec_filler_end(data@, i as int),
        ensures
            pos <= i <= len,
            i as int == spec_filler_end(data@, pos as int),
        decreases len - i,
    {
        let c = *slice_index_get(data, i);
        let filler = c == 32 || c == 9 || c == 10 || c == 13 || c == 58 || c == 44;
        if !filler {
            break ;
        }
        i += 1;
    }
    i
}

/// The first offset at or after `pos` holding a non-whitespace byte.
fn scan_ws_end(data: &[u8], pos: usize) -> (r: usize)
    requires
        pos <= data@.len(),
    ensures
        r == spec_ws_end(data@, pos as int),
        pos <= r <= data@.len(),
{
    let len = data.len();
    let mut i: usize = pos;
    while i < len
        invariant
            pos <= i <= len,
            len == data@.len(),
            spec_ws_end(data@, pos as int) == spec_ws_end(data@, i as int),
        ensures
            pos <= i <= len,
            i as int == spec_ws_end(data@, pos as int),
        decreases len - i,
    {
        let c = *slice_index_get(data, i);
        if !(c == 32 || c == 9 || c == 10 || c == 13) {
            break ;
        }
        i += 1;
    }
    i
}

/// The depth walker: fast-forward until the bracket nesting depth, which
/// starts at one, returns to zero, skipping whole strings, numbers and
/// keywords along the way; land one past the closing bracket.
#[verifier::loop_isolation(false)]
fn skip_out_of_object_or_array(data: &[u8], pos: usize) -> (r: Result<
    usize,
    (TokenizerErrorType, usize),
>)
    requires
        pos <= data@.len(),
    ensures
        r matches Ok(q) ==> q <= data@.len(),
        r matches Err((et, ep)) ==> ep <= data@.len(),
        match spec_skip_walker(data@, pos as int, 1) {
            Ok(q) => r matches Ok(u) && u == q,
            Err((et, ep)) => r matches Err(t) && t.0 == et && t.1 == ep,
        },
{
    let len = data.len();
    let mut depth: u128 = 1;
    let mut cur: usize = pos;
    loop
        invariant
            pos <= cur <= len,
            len == data@.len(),
            1 <= depth,
            depth as int <= 1 + cur as int - pos as int,
            spec_skip_walker(data@, pos as int, 1) == spec_skip_walker(
                data@,
                cur as int,
                depth as int,
            ),
        decreases len - cur,
    {
        if cur >= len {
            return Err((TokenizerErrorType::UnexpectedEndOfInput, len));
        }
        let p = scan_filler_end(data, cur);
        if p >= len {
            return Err((TokenizerErrorType::UnexpectedEndOfInput, len));
        }
        let c = *slice_index_get(data, p);
        if c == 123 || c == 91 {
            depth = depth + 1;
            cur = p + 1;
        } else if c == 125 || c == 93 {
            depth = depth - 1;
            if depth == 0 {
                return Ok(p + 1);
            }
            cur = p + 1;
        } else if c == 34 {
            match skip_string(data, p) {
                Ok(q) => {
                    cur = q;
                },
                Err(e) => {
                    return Err(e);
                },
            }
        } else if c == 45 || (48 <= c && c <= 57) {
            match skip_number(data, p) {
                Ok(q) => {
                    cur = q;
                },
                Err(e) => {
                    return Err(e);
                },
            }
        } else if c == 116 || c == 84 {
            match skip_true(data, p) {
                Ok(q) => {
                    cur = q;
                },
                Err(e) => {
                    return Err(e);
                },
            }
        } else if c == 102 || c == 70 {
            match skip_false(data, p) {
                Ok(q) => {
                    cur = q;
                },
                Err(e) => {
                    return Err(e);
                },
            }
        } else if c == 110 || c == 78 {
            match skip_null(data, p) {
                Ok(q) => {
                    cur = q;
                },
                Err(e) => {
                    return Err(e);
                },
            }
        } else {
            return Err((TokenizerErrorType::UnexpectedBeginChar, p));
        }
    }
}

/// Skip one whole JSON value starting at or after `pos`: skip whitespace,
/// dispatch on the next byte, and fast-forward past the value.
fn skip_over_value(data: &[u8], pos: usize) -> (r: Result<usize, (TokenizerErrorType, usize)>)
    requires
        pos <= data@.len(),
    ensures
        r matches Ok(q) ==> q <= data@.len(),
        r matches Err((et, ep)) ==> ep <= data@.len(),
        match spec_skip_over_value(data@, pos as int) {
            Ok(q) => r matches Ok(u) && u == q,
            Err((et, ep)) => r matches Err(t) && t.0 == et && t.1 == ep,
        },
{
    let len = data.len();
    if pos >= len {
        return Err((TokenizerErrorType::UnexpectedEndOfInput, len));
    }
    let p = scan_ws_end(data, pos);
    if p >= len {
        return Err((TokenizerErrorType::UnexpectedEndOfInput, len));
    }
    let c = *slice_index_get(data, p);
    if c == 123 || c == 91 {
        skip_out_of_object_or_array(data, p + 1)
    } else if c == 34 {
        skip_string(data, p)
    } else if c == 45 || (48 <= c && c <= 57) {
        skip_number(data, p)
    } else if c == 116 || c == 84 {
        skip_true(data, p)
    } else if c == 102 || c == 70 {
        skip_false(data, p)
    } else if c == 110 || c == 78 {
        skip_null(data, p)
    } else {
        Err((TokenizerErrorType::UnexpectedBeginChar, p))
    }
}

impl<'a> JsonTokenizer<'a> {
    /// Walk out of the object or array the offset currently sits in.
    pub(crate) fn skip_out_of_object_or_array(&mut self) -> (r: Result<(), TokenizerErrorType>)
        requires
            old(self).pos <= old(self).input@.len(),
        ensures
            final(self).input@ == old(self).input@,
            final(self).pos <= final(self).input@.len(),
            match spec_skip_walker(old(self).input@, old(self).pos as int, 1) {
                Ok(end) => r is Ok && final(self).pos == end,
                Err((et, ep)) => r == Err::<(), TokenizerErrorType>(et) && final(self).pos == ep,
            },
    {
        match skip_out_of_object_or_array(self.input, self.pos) {
            Ok(new_pos) => {
                self.pos = new_pos;
                Ok(())
            },
            Err((e, new_pos)) => {
                self.pos = new_pos;
                Err(e)
            },
        }
    }

    /// Fast-forward past one whole JSON value at or after the offset.
    pub(crate) fn skip_over_value(&mut self) -> (r: Result<(), TokenizerErrorType>)
        requires
            old(self).pos <= old(self).input@.len(),
        ensures
            final(self).input@ == old(self).input@,
            final(self).pos <= final(self).input@.len(),
            match spec_skip_over_value(old(self).input@, old(self).pos as int) {
                Ok(end) => r is Ok && final(self).pos == end,
                Err((et, ep)) => r == Err::<(), TokenizerErrorType>(et) && final(self).pos == ep,
            },
    {
        match skip_over_value(self.input, self.pos) {
            Ok(new_pos) => {
                self.pos = new_pos;
                Ok(())
            },
            Err((e, new_pos)) => {
                self.pos = new_pos;
                Err(e)
            },
        }
    }
}

} // verus!
