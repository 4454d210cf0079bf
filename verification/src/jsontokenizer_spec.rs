//! The mathematical model of the tokenizer and the skip engine.
//!
//! Every spec function here walks the input byte sequence exactly as the
//! corresponding executable state machine does, returning the token kind
//! (or error) together with the offset where the machine stopped.  Reads
//! past the end of the input behave as reading a 0 byte without advancing,
//! mirroring the executable `read_or_null` primitive.

use crate::jsontokenizer::TokenizerErrorType;
use crate::jsontokenizer_token::JsonTokenType;
use vstd::prelude::*;

verus! {

/// ASCII whitespace as the tokenizer skips it between tokens.
pub open spec fn is_ws(b: u8) -> bool {
    b == 32 || b == 9 || b == 10 || b == 13
}

/// ASCII decimal digit.
pub open spec fn is_digit(b: u8) -> bool {
    48 <= b <= 57
}

/// ASCII hexadecimal digit, either case.
pub open spec fn is_hex_digit(b: u8) -> bool {
    is_digit(b) || (97 <= b <= 102) || (65 <= b <= 70)
}

/// The single-character escape codes accepted after a backslash.
pub open spec fn is_simple_escape(b: u8) -> bool {
    b == 98 || b == 102 || b == 110 || b == 114 || b == 116 || b == 34 || b == 92 || b == 47
}

/// The first offset at or after `pos` holding a byte that is not
/// tokenizer whitespace, or the end of the input.
pub open spec fn spec_ws_end(data: Seq<u8>, pos: int) -> int
    decreases data.len() - pos,
{
    if 0 <= pos < data.len() && is_ws(data[pos]) {
        spec_ws_end(data, pos + 1)
    } else {
        pos
    }
}

/// Skipping whitespace stays inside the input.
pub proof fn lemma_ws_end_bounds(data: Seq<u8>, pos: int)
    requires
        0 <= pos <= data.len(),
    ensures
        pos <= spec_ws_end(data, pos) <= data.len(),
    decreases data.len() - pos,
{
    if pos < data.len() && is_ws(data[pos]) {
        lemma_ws_end_bounds(data, pos + 1);
    }
}

/// One hexadecimal digit of a unicode escape: the offset after it, or the
/// escape-code error exactly where the executable reader reports it.
pub open spec fn spec_hex1(data: Seq<u8>, pos: int) -> Result<int, (TokenizerErrorType, int)> {
    if pos >= data.len() {
        Err((TokenizerErrorType::UnexpectedEscapeCode, pos))
    } else if is_hex_digit(data[pos]) {
        Ok(pos + 1)
    } else {
        Err((TokenizerErrorType::UnexpectedEscapeCode, pos + 1))
    }
}

/// A run of `n` hexadecimal digits still to check from `pos`.
pub open spec fn spec_hexn(data: Seq<u8>, pos: int, n: nat) -> Result<
    int,
    (TokenizerErrorType, int),
>
    decreases n,
{
    if n == 0 {
        Ok(pos)
    } else {
        match spec_hex1(data, pos) {
            Err(e) => Err(e),
            Ok(p1) => spec_hexn(data, p1, (n - 1) as nat),
        }
    }
}

/// A checked run of hexadecimal digits covers exactly `n` bytes.
pub proof fn lemma_hexn_bounds(data: Seq<u8>, pos: int, n: nat)
    requires
        0 <= pos,
    ensures
        spec_hexn(data, pos, n) matches Ok(q) ==> q == pos + n && (n > 0 ==> q
            <= data.len()),
    decreases n,
{
    if n > 0 {
        if let Ok(p1) = spec_hex1(data, pos) {
            lemma_hexn_bounds(data, p1, (n - 1) as nat);
        }
    }
}

/// Four hexadecimal digits of a unicode escape.
pub open spec fn spec_hex4(data: Seq<u8>, pos: int) -> Result<int, (TokenizerErrorType, int)> {
    spec_hexn(data, pos, 4)
}

/// One escape code, starting at the byte after the backslash: a single
/// escape character, or `u` followed by four hexadecimal digits.
pub open spec fn spec_stringescape(data: Seq<u8>, pos: int) -> Result<
    int,
    (TokenizerErrorType, int),
> {
    if pos >= data.len() {
        Err((TokenizerErrorType::UnexpectedEndOfInput, pos))
    } else if data[pos] == 0 {
        Err((TokenizerErrorType::UnexpectedEndOfInput, pos + 1))
    } else if is_simple_escape(data[pos]) {
        Ok(pos + 1)
    } else if data[pos] == 117 {
        spec_hex4(data, pos + 1)
    } else {
        Err((TokenizerErrorType::UnexpectedEscapeCode, pos + 1))
    }
}

/// A well-formed escape code consumes between one and five bytes.
pub proof fn lemma_stringescape_bounds(data: Seq<u8>, pos: int)
    requires
        0 <= pos,
    ensures
        spec_stringescape(data, pos) matches Ok(p2) ==> pos < p2 <= data.len(),
{
    lemma_hexn_bounds(data, pos + 1, 4);
}

/// The rest of a string whose body has already shown an escape: scan for
/// the closing quote, validating each further escape code.  `pos` is an
/// offset inside the string body.
pub open spec fn spec_escstring_loop(data: Seq<u8>, pos: int) -> Result<
    (JsonTokenType, int),
    (TokenizerErrorType, int),
>
    decreases data.len() - pos,
    when 0 <= pos
    via spec_escstring_loop_decreases
{
    if pos >= data.len() {
        Err((TokenizerErrorType::UnexpectedEndOfInput, pos))
    } else if data[pos] == 0 {
        Err((TokenizerErrorType::UnexpectedEndOfInput, pos + 1))
    } else if data[pos] == 34 {
        Ok((JsonTokenType::EscString, pos + 1))
    } else if data[pos] == 92 {
        match spec_stringescape(data, pos + 1) {
            Err(e) => Err(e),
            Ok(p2) => spec_escstring_loop(data, p2),
        }
    } else {
        spec_escstring_loop(data, pos + 1)
    }
}

#[via_fn]
proof fn spec_escstring_loop_decreases(data: Seq<u8>, pos: int) {
    lemma_stringescape_bounds(data, pos + 1);
}

/// A string body from the byte after a backslash: validate the escape,
/// then scan the rest; the token is an escaped string.
pub open spec fn spec_string_escaped(data: Seq<u8>, pos: int) -> Result<
    (JsonTokenType, int),
    (TokenizerErrorType, int),
> {
    match spec_stringescape(data, pos) {
        Err(e) => Err(e),
        Ok(p2) => spec_escstring_loop(data, p2),
    }
}

/// A string body from the byte after the opening quote: scan for the
/// closing quote; a backslash diverts to the escaped path.
pub open spec fn spec_string(data: Seq<u8>, pos: int) -> Result<
    (JsonTokenType, int),
    (TokenizerErrorType, int),
>
    decreases data.len() - pos,
{
    if pos >= data.len() {
        Err((TokenizerErrorType::UnexpectedEndOfInput, pos))
    } else if data[pos] == 0 {
        Err((TokenizerErrorType::UnexpectedEndOfInput, pos + 1))
    } else if data[pos] == 34 {
        Ok((JsonTokenType::String, pos + 1))
    } else if data[pos] == 92 {
        spec_string_escaped(data, pos + 1)
    } else {
        spec_string(data, pos + 1)
    }
}

/// Exponent digits after the first one: consume digits, then rewind one
/// byte and emit a non-integer number.
pub open spec fn spec_number_e0(data: Seq<u8>, pos: int) -> Result<
    (JsonTokenType, int),
    (TokenizerErrorType, int),
>
    decreases data.len() - pos,
{
    if pos >= data.len() {
        Ok((JsonTokenType::Number, pos))
    } else if data[pos] == 0 {
        Ok((JsonTokenType::Number, pos + 1))
    } else if is_digit(data[pos]) {
        spec_number_e0(data, pos + 1)
    } else {
        Ok((JsonTokenType::Number, pos))
    }
}

/// The start of an exponent: an optional sign, then at least one digit.
pub open spec fn spec_number_e(data: Seq<u8>, pos: int) -> Result<
    (JsonTokenType, int),
    (TokenizerErrorType, int),
> {
    if pos >= data.len() {
        Err((TokenizerErrorType::UnexpectedEndOfInput, pos))
    } else if data[pos] == 0 {
        Err((TokenizerErrorType::UnexpectedEndOfInput, pos + 1))
    } else if is_digit(data[pos]) {
        spec_number_e0(data, pos + 1)
    } else if data[pos] == 43 || data[pos] == 45 {
        let q = pos + 1;
        if q >= data.len() {
            Err((TokenizerErrorType::UnexpectedEndOfInput, q))
        } else if data[q] == 0 {
            Err((TokenizerErrorType::UnexpectedEndOfInput, q + 1))
        } else if is_digit(data[q]) {
            spec_number_e0(data, q + 1)
        } else {
            Err((TokenizerErrorType::UnexpectedCharInExponentLiteral, q + 1))
        }
    } else {
        Err((TokenizerErrorType::UnexpectedCharInExponentLiteral, pos + 1))
    }
}

/// Fraction digits after the first one: consume digits; an exponent marker
/// diverts to the exponent machine.
pub open spec fn spec_number_dot0(data: Seq<u8>, pos: int) -> Result<
    (JsonTokenType, int),
    (TokenizerErrorType, int),
>
    decreases data.len() - pos,
{
    if pos >= data.len() {
        Ok((JsonTokenType::Number, pos))
    } else if data[pos] == 0 {
        Ok((JsonTokenType::Number, pos + 1))
    } else if is_digit(data[pos]) {
        spec_number_dot0(data, pos + 1)
    } else if data[pos] == 101 || data[pos] == 69 {
        spec_number_e(data, pos + 1)
    } else {
        Ok((JsonTokenType::Number, pos))
    }
}

/// The byte after a decimal point: exactly one digit is required.
pub open spec fn spec_number_dot(data: Seq<u8>, pos: int) -> Result<
    (JsonTokenType, int),
    (TokenizerErrorType, int),
> {
    if pos >= data.len() {
        Err((TokenizerErrorType::UnexpectedEndOfInput, pos))
    } else if data[pos] == 0 {
        Err((TokenizerErrorType::UnexpectedEndOfInput, pos + 1))
    } else if is_digit(data[pos]) {
        spec_number_dot0(data, pos + 1)
    } else {
        Err((TokenizerErrorType::UnexpectedCharInNumericLiteral, pos + 1))
    }
}

/// The byte after a leading zero: a fraction or exponent continues the
/// number; anything else rewinds and emits the integer zero.
pub open spec fn spec_number_zero(data: Seq<u8>, pos: int) -> Result<
    (JsonTokenType, int),
    (TokenizerErrorType, int),
> {
    if pos >= data.len() {
        Ok((JsonTokenType::Integer, pos))
    } else if data[pos] == 0 {
        Ok((JsonTokenType::Integer, pos + 1))
    } else if data[pos] == 46 {
        spec_number_dot(data, pos + 1)
    } else if data[pos] == 101 || data[pos] == 69 {
        spec_number_e(data, pos + 1)
    } else {
        Ok((JsonTokenType::Integer, pos))
    }
}

/// Digits after a leading non-zero digit: consume digits; a fraction or
/// exponent continues the number; anything else rewinds and emits an
/// integer.
pub open spec fn spec_number_one(data: Seq<u8>, pos: int) -> Result<
    (JsonTokenType, int),
    (TokenizerErrorType, int),
>
    decreases data.len() - pos,
{
    if pos >= data.len() {
        Ok((JsonTokenType::Integer, pos))
    } else if data[pos] == 0 {
        Ok((JsonTokenType::Integer, pos + 1))
    } else if is_digit(data[pos]) {
        spec_number_one(data, pos + 1)
    } else if data[pos] == 46 {
        spec_number_dot(data, pos + 1)
    } else if data[pos] == 101 || data[pos] == 69 {
        spec_number_e(data, pos + 1)
    } else {
        Ok((JsonTokenType::Integer, pos))
    }
}

/// The byte after a minus sign: a zero or a non-zero digit starts the
/// number; anything else is an error.
pub open spec fn spec_number_neg(data: Seq<u8>, pos: int) -> Result<
    (JsonTokenType, int),
    (TokenizerErrorType, int),
> {
    if pos >= data.len() {
        Err((TokenizerErrorType::UnexpectedEndOfInput, pos))
    } else if data[pos] == 0 {
        Err((TokenizerErrorType::UnexpectedEndOfInput, pos + 1))
    } else if data[pos] == 48 {
        spec_number_zero(data, pos + 1)
    } else if 49 <= data[pos] <= 57 {
        spec_number_one(data, pos + 1)
    } else {
        Err((TokenizerErrorType::UnexpectedCharInNumericLiteral, pos + 1))
    }
}

/// One byte of a keyword, compared case-insensitively against the two
/// given cases: the offset after it, or the given error exactly where the
/// executable reader reports it.
pub open spec fn spec_keyword_byte(
    data: Seq<u8>,
    pos: int,
    lo: u8,
    hi: u8,
    err: TokenizerErrorType,
) -> Result<int, (TokenizerErrorType, int)> {
    if pos >= data.len() {
        Err((err, pos))
    } else if data[pos] == lo || data[pos] == hi {
        Ok(pos + 1)
    } else {
        Err((err, pos + 1))
    }
}

/// The keyword `true` after its leading byte, case-insensitively.
pub open spec fn spec_true(data: Seq<u8>, pos: int) -> Result<
    (JsonTokenType, int),
    (TokenizerErrorType, int),
> {
    match spec_keyword_byte(data, pos, 114, 82, TokenizerErrorType::UnexpectedCharInTrueLiteral) {
        Err(e) => Err(e),
        Ok(p1) => match spec_keyword_byte(
            data,
            p1,
            117,
            85,
            TokenizerErrorType::UnexpectedCharInTrueLiteral,
        ) {
            Err(e) => Err(e),
            Ok(p2) => match spec_keyword_byte(
                data,
                p2,
                101,
                69,
                TokenizerErrorType::UnexpectedCharInTrueLiteral,
            ) {
                Err(e) => Err(e),
                Ok(p3) => Ok((JsonTokenType::True, p3)),
            },
        },
    }
}

/// The keyword `false` after its leading byte, case-insensitively.
pub open spec fn spec_false(data: Seq<u8>, pos: int) -> Result<
    (JsonTokenType, int),
    (TokenizerErrorType, int),
> {
    match spec_keyword_byte(data, pos, 97, 65, TokenizerErrorType::UnexpectedCharInFalseLiteral) {
        Err(e) => Err(e),
        Ok(p1) => match spec_keyword_byte(
            data,
            p1,
            108,
            76,
            TokenizerErrorType::UnexpectedCharInFalseLiteral,
        ) {
            Err(e) => Err(e),
            Ok(p2) => match spec_keyword_byte(
                data,
                p2,
                115,
                83,
                TokenizerErrorType::UnexpectedCharInFalseLiteral,
            ) {
                Err(e) => Err(e),
                Ok(p3) => match spec_keyword_byte(
                    data,
                    p3,
                    101,
                    69,
                    TokenizerErrorType::UnexpectedCharInFalseLiteral,
                ) {
                    Err(e) => Err(e),
                    Ok(p4) => Ok((JsonTokenType::False, p4)),
                },
            },
        },
    }
}

/// The keyword `null` after its leading byte, case-insensitively.
pub open spec fn spec_null(data: Seq<u8>, pos: int) -> Result<
    (JsonTokenType, int),
    (TokenizerErrorType, int),
> {
    match spec_keyword_byte(data, pos, 117, 85, TokenizerErrorType::UnexpectedCharInNullLiteral) {
        Err(e) => Err(e),
        Ok(p1) => match spec_keyword_byte(
            data,
            p1,
            108,
            76,
            TokenizerErrorType::UnexpectedCharInNullLiteral,
        ) {
            Err(e) => Err(e),
            Ok(p2) => match spec_keyword_byte(
                data,
                p2,
                108,
                76,
                TokenizerErrorType::UnexpectedCharInNullLiteral,
            ) {
                Err(e) => Err(e),
                Ok(p3) => Ok((JsonTokenType::Null, p3)),
            },
        },
    }
}

/// One token from `pos`, which must already sit on the first byte of the
/// token: the kind and the offset one past the token's last byte.
pub open spec fn spec_parse_token(data: Seq<u8>, pos: int) -> Result<
    (JsonTokenType, int),
    (TokenizerErrorType, int),
> {
    if pos >= data.len() {
        Ok((JsonTokenType::End, pos))
    } else {
        let b = data[pos];
        let p = pos + 1;
        if b == 0 {
            Ok((JsonTokenType::End, p))
        } else if b == 123 {
            Ok((JsonTokenType::ObjectStart, p))
        } else if b == 125 {
            Ok((JsonTokenType::ObjectEnd, p))
        } else if b == 58 {
            Ok((JsonTokenType::ObjectKeyDelim, p))
        } else if b == 91 {
            Ok((JsonTokenType::ArrayStart, p))
        } else if b == 93 {
            Ok((JsonTokenType::ArrayEnd, p))
        } else if b == 44 {
            Ok((JsonTokenType::ListDelim, p))
        } else if b == 34 {
            spec_string(data, p)
        } else if b == 45 {
            spec_number_neg(data, p)
        } else if b == 48 {
            spec_number_zero(data, p)
        } else if 49 <= b <= 57 {
            spec_number_one(data, p)
        } else if b == 116 || b == 84 {
            spec_true(data, p)
        } else if b == 102 || b == 70 {
            spec_false(data, p)
        } else if b == 110 || b == 78 {
            spec_null(data, p)
        } else {
            Err((TokenizerErrorType::UnexpectedBeginChar, p))
        }
    }
}

/// One full `step`: skip whitespace, then lex one token.  On success the
/// result carries the kind, the offset of the token's first byte, and the
/// offset one past its last byte.
pub open spec fn spec_step(data: Seq<u8>, pos: int) -> Result<
    (JsonTokenType, int, int),
    (TokenizerErrorType, int),
> {
    let start = spec_ws_end(data, pos);
    match spec_parse_token(data, start) {
        Ok((kind, end)) => Ok((kind, start, end)),
        Err(e) => Err(e),
    }
}

/// Filler bytes the depth walker skips between structural bytes:
/// whitespace plus the two delimiters.
pub open spec fn is_filler(b: u8) -> bool {
    is_ws(b) || b == 58 || b == 44
}

/// The first offset at or after `pos` holding a non-filler byte, or the
/// end of the input.
pub open spec fn spec_filler_end(data: Seq<u8>, pos: int) -> int
    decreases data.len() - pos,
{
    if 0 <= pos < data.len() && is_filler(data[pos]) {
        spec_filler_end(data, pos + 1)
    } else {
        pos
    }
}

/// Skipping filler stays inside the input.
pub proof fn lemma_filler_end_bounds(data: Seq<u8>, pos: int)
    requires
        0 <= pos <= data.len(),
    ensures
        pos <= spec_filler_end(data, pos) <= data.len(),
    decreases data.len() - pos,
{
    if pos < data.len() && is_filler(data[pos]) {
        lemma_filler_end_bounds(data, pos + 1);
    }
}

/// The bytes a number may contain, for the purposes of skipping past one.
pub open spec fn is_number_char(b: u8) -> bool {
    is_digit(b) || b == 46 || b == 101 || b == 69 || b == 43 || b == 45
}

/// The first offset at or after `pos` holding a non-number byte, or the
/// end of the input.
pub open spec fn spec_number_end(data: Seq<u8>, pos: int) -> int
    decreases data.len() - pos,
{
    if 0 <= pos < data.len() && is_number_char(data[pos]) {
        spec_number_end(data, pos + 1)
    } else {
        pos
    }
}

/// Skipping number bytes stays inside the input.
pub proof fn lemma_number_end_bounds(data: Seq<u8>, pos: int)
    requires
        0 <= pos <= data.len(),
    ensures
        pos <= spec_number_end(data, pos) <= data.len(),
    decreases data.len() - pos,
{
    if pos < data.len() && is_number_char(data[pos]) {
        lemma_number_end_bounds(data, pos + 1);
    }
}


/// A point with number bytes before it and a non-number byte (or the end)
/// at it is exactly where the number scan stops.
pub proof fn lemma_number_end_first(data: Seq<u8>, pos: int, j: int)
    requires
        0 <= pos <= j <= data.len(),
        forall|k: int| pos <= k < j ==> is_number_char(data[k]),
        j == data.len() || !is_number_char(data[j]),
    ensures
        spec_number_end(data, pos) == j,
    decreases j - pos,
{
    if pos < j {
        lemma_number_end_first(data, pos + 1, j);
    }
}


/// Every byte the filler scan stepped over is filler.
pub proof fn lemma_filler_prefix(data: Seq<u8>, pos: int)
    requires
        0 <= pos <= data.len(),
    ensures
        forall|i: int| pos <= i < spec_filler_end(data, pos) ==> is_filler(#[trigger] data[i]),
    decreases data.len() - pos,
{
    if pos < data.len() && is_filler(data[pos]) {
        lemma_filler_prefix(data, pos + 1);
    }
}

/// Every byte the number scan stepped over is a number byte.
pub proof fn lemma_number_prefix(data: Seq<u8>, pos: int)
    requires
        0 <= pos <= data.len(),
    ensures
        forall|i: int| pos <= i < spec_number_end(data, pos) ==> is_number_char(#[trigger] data[i]),
    decreases data.len() - pos,
{
    if pos < data.len() && is_number_char(data[pos]) {
        lemma_number_prefix(data, pos + 1);
    }
}

/// The offset of the closing quote of a string scanned from `i`, where a
/// backslash shields the following byte, or nothing when the string never
/// closes.
pub open spec fn spec_string_scan(data: Seq<u8>, i: int, esc: bool) -> Option<int>
    decreases data.len() - i,
{
    if i < 0 || i >= data.len() {
        None
    } else if esc {
        spec_string_scan(data, i + 1, false)
    } else if data[i] == 34 {
        Some(i)
    } else if data[i] == 92 {
        spec_string_scan(data, i + 1, true)
    } else {
        spec_string_scan(data, i + 1, false)
    }
}

/// A found closing quote lies inside the input, at or after the scan
/// start.
pub proof fn lemma_string_scan_bounds(data: Seq<u8>, i: int, esc: bool)
    requires
        0 <= i,
    ensures
        spec_string_scan(data, i, esc) matches Some(q) ==> i <= q < data.len(),
    decreases data.len() - i,
{
    if i < data.len() {
        lemma_string_scan_bounds(data, i + 1, false);
        lemma_string_scan_bounds(data, i + 1, true);
    }
}

/// Skip one whole string: `pos` sits on the opening quote; the result is
/// the offset one past the closing quote.
pub open spec fn spec_skip_string(data: Seq<u8>, pos: int) -> Result<
    int,
    (TokenizerErrorType, int),
> {
    if pos >= data.len() {
        Err((TokenizerErrorType::UnexpectedEndOfInput, data.len() as int))
    } else {
        match spec_string_scan(data, pos + 1, false) {
            Some(q) => Ok(q + 1),
            None => Err((TokenizerErrorType::UnexpectedEndOfInput, data.len() as int)),
        }
    }
}

/// Skip one whole number: `pos` sits on its first byte; the result is the
/// first offset after it holding a non-number byte, or the end of the
/// input.
pub open spec fn spec_skip_number(data: Seq<u8>, pos: int) -> Result<
    int,
    (TokenizerErrorType, int),
> {
    if pos >= data.len() {
        Err((TokenizerErrorType::UnexpectedEndOfInput, data.len() as int))
    } else {
        Ok(spec_number_end(data, pos + 1))
    }
}

/// Skip the keyword `true`: `pos` sits on its leading byte.
pub open spec fn spec_skip_true(data: Seq<u8>, pos: int) -> Result<
    int,
    (TokenizerErrorType, int),
> {
    if pos >= data.len() || pos + 1 >= data.len() {
        Err((TokenizerErrorType::UnexpectedEndOfInput, data.len() as int))
    } else if !(data[pos + 1] == 114 || data[pos + 1] == 82) {
        Err((TokenizerErrorType::UnexpectedCharInTrueLiteral, pos))
    } else if pos + 2 >= data.len() {
        Err((TokenizerErrorType::UnexpectedEndOfInput, data.len() as int))
    } else if !(data[pos + 2] == 117 || data[pos + 2] == 85) {
        Err((TokenizerErrorType::UnexpectedCharInTrueLiteral, pos))
    } else if pos + 3 >= data.len() {
        Err((TokenizerErrorType::UnexpectedEndOfInput, data.len() as int))
    } else if !(data[pos + 3] == 101 || data[pos + 3] == 69) {
        Err((TokenizerErrorType::UnexpectedCharInTrueLiteral, pos))
    } else {
        Ok(pos + 4)
    }
}

/// Skip the keyword `false`: `pos` sits on its leading byte.
pub open spec fn spec_skip_false(data: Seq<u8>, pos: int) -> Result<
    int,
    (TokenizerErrorType, int),
> {
    if pos >= data.len() || pos + 1 >= data.len() {
        Err((TokenizerErrorType::UnexpectedEndOfInput, data.len() as int))
    } else if !(data[pos + 1] == 97 || data[pos + 1] == 65) {
        Err((TokenizerErrorType::UnexpectedCharInFalseLiteral, pos))
    } else if pos + 2 >= data.len() {
        Err((TokenizerErrorType::UnexpectedEndOfInput, data.len() as int))
    } else if !(data[pos + 2] == 108 || data[pos + 2] == 76) {
        Err((TokenizerErrorType::UnexpectedCharInFalseLiteral, pos))
    } else if pos + 3 >= data.len() {
        Err((TokenizerErrorType::UnexpectedEndOfInput, data.len() as int))
    } else if !(data[pos + 3] == 115 || data[pos + 3] == 83) {
        Err((TokenizerErrorType::UnexpectedCharInFalseLiteral, pos))
    } else if pos + 4 >= data.len() {
        Err((TokenizerErrorType::UnexpectedEndOfInput, data.len() as int))
    } else if !(data[pos + 4] == 101 || data[pos + 4] == 69) {
        Err((TokenizerErrorType::UnexpectedCharInFalseLiteral, pos))
    } else {
        Ok(pos + 5)
    }
}

/// Skip the keyword `null`: `pos` sits on its leading byte.
pub open spec fn spec_skip_null(data: Seq<u8>, pos: int) -> Result<
    int,
    (TokenizerErrorType, int),
> {
    if pos >= data.len() || pos + 1 >= data.len() {
        Err((TokenizerErrorType::UnexpectedEndOfInput, data.len() as int))
    } else if !(data[pos + 1] == 117 || data[pos + 1] == 85) {
        Err((TokenizerErrorType::UnexpectedCharInNullLiteral, pos))
    } else if pos + 2 >= data.len() {
        Err((TokenizerErrorType::UnexpectedEndOfInput, data.len() as int))
    } else if !(data[pos + 2] == 108 || data[pos + 2] == 76) {
        Err((TokenizerErrorType::UnexpectedCharInNullLiteral, pos))
    } else if pos + 3 >= data.len() {
        Err((TokenizerErrorType::UnexpectedEndOfInput, data.len() as int))
    } else if !(data[pos + 3] == 108 || data[pos + 3] == 76) {
        Err((TokenizerErrorType::UnexpectedCharInNullLiteral, pos))
    } else {
        Ok(pos + 4)
    }
}

/// A found closing quote bounds the string skip away from its start.
pub proof fn lemma_skip_string_bounds(data: Seq<u8>, pos: int)
    requires
        0 <= pos,
    ensures
        spec_skip_string(data, pos) matches Ok(q) ==> pos + 2 <= q <= data.len(),
{
    if pos < data.len() {
        lemma_string_scan_bounds(data, pos + 1, false);
    }
}

/// The depth walker: fast-forward until the bracket nesting depth, which
/// starts at `depth`, returns to zero, skipping whole strings, numbers and
/// keywords along the way.  The result is the offset one past the closing
/// bracket.
pub open spec fn spec_skip_walker(data: Seq<u8>, pos: int, depth: int) -> Result<
    int,
    (TokenizerErrorType, int),
>
    decreases data.len() - pos,
    when 0 <= pos
    via spec_skip_walker_decreases
{
    if pos >= data.len() {
        Err((TokenizerErrorType::UnexpectedEndOfInput, data.len() as int))
    } else {
        let p = spec_filler_end(data, pos);
        if p >= data.len() {
            Err((TokenizerErrorType::UnexpectedEndOfInput, data.len() as int))
        } else if data[p] == 123 || data[p] == 91 {
            spec_skip_walker(data, p + 1, depth + 1)
        } else if data[p] == 125 || data[p] == 93 {
            if depth == 1 {
                Ok(p + 1)
            } else {
                spec_skip_walker(data, p + 1, depth - 1)
            }
        } else if data[p] == 34 {
            match spec_skip_string(data, p) {
                Err(e) => Err(e),
                Ok(q) => spec_skip_walker(data, q, depth),
            }
        } else if data[p] == 45 || is_digit(data[p]) {
            match spec_skip_number(data, p) {
                Err(e) => Err(e),
                Ok(q) => spec_skip_walker(data, q, depth),
            }
        } else if data[p] == 116 || data[p] == 84 {
            match spec_skip_true(data, p) {
                Err(e) => Err(e),
                Ok(q) => spec_skip_walker(data, q, depth),
            }
        } else if data[p] == 102 || data[p] == 70 {
            match spec_skip_false(data, p) {
                Err(e) => Err(e),
                Ok(q) => spec_skip_walker(data, q, depth),
            }
        } else if data[p] == 110 || data[p] == 78 {
            match spec_skip_null(data, p) {
                Err(e) => Err(e),
                Ok(q) => spec_skip_walker(data, q, depth),
            }
        } else {
            Err((TokenizerErrorType::UnexpectedBeginChar, p))
        }
    }
}

#[via_fn]
proof fn spec_skip_walker_decreases(data: Seq<u8>, pos: int, depth: int) {
    if pos < data.len() {
        lemma_filler_end_bounds(data, pos);
        let p = spec_filler_end(data, pos);
        lemma_skip_string_bounds(data, p);
        if p < data.len() {
            lemma_number_end_bounds(data, p + 1);
        }
    }
}

/// Skip one whole JSON value starting at or after `pos`: skip whitespace,
/// dispatch on the next byte, and fast-forward past the value.  The result
/// is the offset one past the value's last byte.
pub open spec fn spec_skip_over_value(data: Seq<u8>, pos: int) -> Result<
    int,
    (TokenizerErrorType, int),
> {
    if pos >= data.len() {
        Err((TokenizerErrorType::UnexpectedEndOfInput, data.len() as int))
    } else {
        let p = spec_ws_end(data, pos);
        if p >= data.len() {
            Err((TokenizerErrorType::UnexpectedEndOfInput, data.len() as int))
        } else if data[p] == 123 || data[p] == 91 {
            spec_skip_walker(data, p + 1, 1)
        } else if data[p] == 34 {
            spec_skip_string(data, p)
        } else if data[p] == 45 || is_digit(data[p]) {
            spec_skip_number(data, p)
        } else if data[p] == 116 || data[p] == 84 {
            spec_skip_true(data, p)
        } else if data[p] == 102 || data[p] == 70 {
            spec_skip_false(data, p)
        } else if data[p] == 110 || data[p] == 78 {
            spec_skip_null(data, p)
        } else {
            Err((TokenizerErrorType::UnexpectedBeginChar, p))
        }
    }
}

} // verus!
