//! The tokenizer's lexing state machines: strings with escapes, numbers,
//! keywords, whitespace, and the dispatch on a token's first byte.  Each
//! machine is proved to land exactly where its spec-model counterpart in
//! `jsontokenizer_spec` says, with the same verdict.

use crate::jsontokenizer::{JsonTokenizer, TokenizerErrorType};
use crate::jsontokenizer_spec::{
    spec_escstring_loop, spec_false, spec_hex4, spec_hexn, spec_null, spec_number_dot,
    spec_number_dot0, spec_number_e, spec_number_e0, spec_number_neg, spec_number_one,
    spec_number_zero, spec_parse_token, spec_string, spec_string_escaped, spec_stringescape,
    spec_true, spec_ws_end,
};
use crate::jsontokenizer_token::JsonTokenType;
use vstd::prelude::*;
use vstd::slice::slice_index_get;

verus! {

impl<'a> JsonTokenizer<'a> {
    /// Validate the four hexadecimal digits of a unicode escape.
    pub(crate) fn parse_unicodeescape(&mut self) -> (r: Result<(), TokenizerErrorType>)
        requires
            old(self).pos <= old(self).input@.len(),
        ensures
            final(self).input@ == old(self).input@,
            old(self).pos <= final(self).pos <= final(self).input@.len(),
            r is Ok ==> final(self).pos == old(self).pos + 4,
            match spec_hex4(old(self).input@, old(self).pos as int) {
                Ok(end) => r is Ok && final(self).pos == end,
                Err((et, ep)) => r == Err::<(), TokenizerErrorType>(et) && final(self).pos == ep,
            },
    {
        let mut k: usize = 0;
        while k < 4
            invariant
                k <= 4,
                self.input@ == old(self).input@,
                self.pos == old(self).pos + k,
                self.pos <= self.input@.len(),
                spec_hex4(old(self).input@, old(self).pos as int) == spec_hexn(
                    self.input@,
                    self.pos as int,
                    (4 - k) as nat,
                ),
            decreases 4 - k,
        {
            let c = self.read_or_null();
            let ok = (48 <= c && c <= 57) || (97 <= c && c <= 102) || (65 <= c && c <= 70);
            if !ok {
                return Err(TokenizerErrorType::UnexpectedEscapeCode);
            }
            k += 1;
        }
        Ok(())
    }

    /// Validate one escape code: the byte after the backslash, or `u`
    /// followed by four hexadecimal digits.
    pub(crate) fn parse_stringescape(&mut self) -> (r: Result<(), TokenizerErrorType>)
        requires
            old(self).pos <= old(self).input@.len(),
        ensures
            final(self).input@ == old(self).input@,
            old(self).pos <= final(self).pos <= final(self).input@.len(),
            r is Ok ==> final(self).pos > old(self).pos,
            match spec_stringescape(old(self).input@, old(self).pos as int) {
                Ok(end) => r is Ok && final(self).pos == end,
                Err((et, ep)) => r == Err::<(), TokenizerErrorType>(et) && final(self).pos == ep,
            },
    {
        let c = self.read_or_null();
        if c == 0 {
            Err(TokenizerErrorType::UnexpectedEndOfInput)
        } else if c == 98 || c == 102 || c == 110 || c == 114 || c == 116 || c == 34 || c
            == 92 || c == 47 {
            Ok(())
        } else if c == 117 {
            self.parse_unicodeescape()
        } else {
            Err(TokenizerErrorType::UnexpectedEscapeCode)
        }
    }

    /// A string body that has shown at least one escape: validate the
    /// escape at the current offset, then scan to the closing quote.
    fn parse_string_escaped(&mut self) -> (r: Result<JsonTokenType, TokenizerErrorType>)
        requires
            old(self).pos <= old(self).input@.len(),
        ensures
            final(self).input@ == old(self).input@,
            old(self).pos <= final(self).pos <= final(self).input@.len(),
            match spec_string_escaped(old(self).input@, old(self).pos as int) {
                Ok((k, end)) => r == Ok::<JsonTokenType, TokenizerErrorType>(k) && final(self).pos
                    == end,
                Err((et, ep)) => r == Err::<JsonTokenType, TokenizerErrorType>(et) && final(self).pos == ep,
            },
    {
        match self.parse_stringescape() {
            Ok(_) => (),
            Err(e) => {
                return Err(e);
            },
        }
        loop
            invariant
                self.pos <= self.input@.len(),
                self.input@ == old(self).input@,
                old(self).pos <= self.pos,
                spec_string_escaped(old(self).input@, old(self).pos as int) == spec_escstring_loop(
                    self.input@,
                    self.pos as int,
                ),
            decreases self.input@.len() - self.pos,
        {
            let c = self.read_or_null();
            if c == 0 {
                return Err(TokenizerErrorType::UnexpectedEndOfInput);
            } else if c == 34 {
                return Ok(JsonTokenType::EscString);
            } else if c == 92 {
                match self.parse_stringescape() {
                    Ok(_) => (),
                    Err(e) => {
                        return Err(e);
                    },
                }
            }
        }
    }

    /// A string body from the byte after the opening quote: scan for the
    /// closing quote; a backslash diverts to the escaped path.
    fn parse_string(&mut self) -> (r: Result<JsonTokenType, TokenizerErrorType>)
        requires
            old(self).pos <= old(self).input@.len(),
        ensures
            final(self).input@ == old(self).input@,
            old(self).pos <= final(self).pos <= final(self).input@.len(),
            match spec_string(old(self).input@, old(self).pos as int) {
                Ok((k, end)) => r == Ok::<JsonTokenType, TokenizerErrorType>(k) && final(self).pos
                    == end,
                Err((et, ep)) => r == Err::<JsonTokenType, TokenizerErrorType>(et) && final(self).pos == ep,
            },
    {
        loop
            invariant
                self.pos <= self.input@.len(),
                self.input@ == old(self).input@,
                old(self).pos <= self.pos,
                spec_string(old(self).input@, old(self).pos as int) == spec_string(
                    self.input@,
                    self.pos as int,
                ),
            decreases self.input@.len() - self.pos,
        {
            let c = self.read_or_null();
            if c == 0 {
                return Err(TokenizerErrorType::UnexpectedEndOfInput);
            } else if c == 34 {
                return Ok(JsonTokenType::String);
            } else if c == 92 {
                return self.parse_string_escaped();
            }
        }
    }

    /// The byte after a minus sign: a zero or non-zero digit starts the
    /// number.
    fn parse_number_neg(&mut self) -> (r: Result<JsonTokenType, TokenizerErrorType>)
        requires
            old(self).pos <= old(self).input@.len(),
        ensures
            final(self).input@ == old(self).input@,
            old(self).pos <= final(self).pos <= final(self).input@.len(),
            match spec_number_neg(old(self).input@, old(self).pos as int) {
                Ok((k, end)) => r == Ok::<JsonTokenType, TokenizerErrorType>(k) && final(self).pos
                    == end,
                Err((et, ep)) => r == Err::<JsonTokenType, TokenizerErrorType>(et) && final(self).pos == ep,
            },
    {
        let c = self.read_or_null();
        if c == 0 {
            Err(TokenizerErrorType::UnexpectedEndOfInput)
        } else if c == 48 {
            self.parse_number_zero()
        } else if 49 <= c && c <= 57 {
            self.parse_number_one()
        } else {
            Err(TokenizerErrorType::UnexpectedCharInNumericLiteral)
        }
    }

    /// The byte after a leading zero: a fraction or exponent continues;
    /// anything else rewinds and emits the integer zero.
    fn parse_number_zero(&mut self) -> (r: Result<JsonTokenType, TokenizerErrorType>)
        requires
            old(self).pos <= old(self).input@.len(),
        ensures
            final(self).input@ == old(self).input@,
            old(self).pos <= final(self).pos <= final(self).input@.len(),
            match spec_number_zero(old(self).input@, old(self).pos as int) {
                Ok((k, end)) => r == Ok::<JsonTokenType, TokenizerErrorType>(k) && final(self).pos
                    == end,
                Err((et, ep)) => r == Err::<JsonTokenType, TokenizerErrorType>(et) && final(self).pos == ep,
            },
    {
        let c = self.read_or_null();
        if c == 0 {
            Ok(JsonTokenType::Integer)
        } else if c == 46 {
            self.parse_number_dot()
        } else if c == 101 || c == 69 {
            self.parse_number_e()
        } else {
            self.rewind();
            Ok(JsonTokenType::Integer)
        }
    }

    /// Digits after a leading non-zero digit.
    fn parse_number_one(&mut self) -> (r: Result<JsonTokenType, TokenizerErrorType>)
        requires
            old(self).pos <= old(self).input@.len(),
        ensures
            final(self).input@ == old(self).input@,
            old(self).pos <= final(self).pos <= final(self).input@.len(),
            match spec_number_one(old(self).input@, old(self).pos as int) {
                Ok((k, end)) => r == Ok::<JsonTokenType, TokenizerErrorType>(k) && final(self).pos
                    == end,
                Err((et, ep)) => r == Err::<JsonTokenType, TokenizerErrorType>(et) && final(self).pos == ep,
            },
    {
        loop
            invariant
                self.pos <= self.input@.len(),
                self.input@ == old(self).input@,
                old(self).pos <= self.pos,
                spec_number_one(old(self).input@, old(self).pos as int) == spec_number_one(
                    self.input@,
                    self.pos as int,
                ),
            decreases self.input@.len() - self.pos,
        {
            let c = self.read_or_null();
            if c == 0 {
                return Ok(JsonTokenType::Integer);
            } else if 48 <= c && c <= 57 {
                // keep consuming digits
            } else if c == 46 {
                return self.parse_number_dot();
            } else if c == 101 || c == 69 {
                return self.parse_number_e();
            } else {
                self.rewind();
                return Ok(JsonTokenType::Integer);
            }
        }
    }

    /// The byte after a decimal point: exactly one digit is required.
    fn parse_number_dot(&mut self) -> (r: Result<JsonTokenType, TokenizerErrorType>)
        requires
            old(self).pos <= old(self).input@.len(),
        ensures
            final(self).input@ == old(self).input@,
            old(self).pos <= final(self).pos <= final(self).input@.len(),
            match spec_number_dot(old(self).input@, old(self).pos as int) {
                Ok((k, end)) => r == Ok::<JsonTokenType, TokenizerErrorType>(k) && final(self).pos
                    == end,
                Err((et, ep)) => r == Err::<JsonTokenType, TokenizerErrorType>(et) && final(self).pos == ep,
            },
    {
        let c = self.read_or_null();
        if c == 0 {
            Err(TokenizerErrorType::UnexpectedEndOfInput)
        } else if 48 <= c && c <= 57 {
            self.parse_number_dot0()
        } else {
            Err(TokenizerErrorType::UnexpectedCharInNumericLiteral)
        }
    }

    /// Fraction digits after the first one.
    fn parse_number_dot0(&mut self) -> (r: Result<JsonTokenType, TokenizerErrorType>)
        requires
            old(self).pos <= old(self).input@.len(),
        ensures
            final(self).input@ == old(self).input@,
            old(self).pos <= final(self).pos <= final(self).input@.len(),
            match spec_number_dot0(old(self).input@, old(self).pos as int) {
                Ok((k, end)) => r == Ok::<JsonTokenType, TokenizerErrorType>(k) && final(self).pos
                    == end,
                Err((et, ep)) => r == Err::<JsonTokenType, TokenizerErrorType>(et) && final(self).pos == ep,
            },
    {
        loop
            invariant
                self.pos <= self.input@.len(),
                self.input@ == old(self).input@,
                old(self).pos <= self.pos,
                spec_number_dot0(old(self).input@, old(self).pos as int) == spec_number_dot0(
                    self.input@,
                    self.pos as int,
                ),
            decreases self.input@.len() - self.pos,
        {
            let c = self.read_or_null();
            if c == 0 {
                return Ok(JsonTokenType::Number);
            } else if 48 <= c && c <= 57 {
                // keep consuming digits
            } else if c == 101 || c == 69 {
                return self.parse_number_e();
            } else {
                self.rewind();
                return Ok(JsonTokenType::Number);
            }
        }
    }

    /// The start of an exponent: an optional sign, then at least one
    /// digit.
    fn parse_number_e(&mut self) -> (r: Result<JsonTokenType, TokenizerErrorType>)
        requires
            old(self).pos <= old(self).input@.len(),
        ensures
            final(self).input@ == old(self).input@,
            old(self).pos <= final(self).pos <= final(self).input@.len(),
            match spec_number_e(old(self).input@, old(self).pos as int) {
                Ok((k, end)) => r == Ok::<JsonTokenType, TokenizerErrorType>(k) && final(self).pos
                    == end,
                Err((et, ep)) => r == Err::<JsonTokenType, TokenizerErrorType>(et) && final(self).pos == ep,
            },
    {
        let c = self.read_or_null();
        if c == 0 {
            Err(TokenizerErrorType::UnexpectedEndOfInput)
        } else if 48 <= c && c <= 57 {
            self.parse_number_e0()
        } else if c == 43 || c == 45 {
            let c2 = self.read_or_null();
            if c2 == 0 {
                Err(TokenizerErrorType::UnexpectedEndOfInput)
            } else if 48 <= c2 && c2 <= 57 {
                self.parse_number_e0()
            } else {
                Err(TokenizerErrorType::UnexpectedCharInExponentLiteral)
            }
        } else {
            Err(TokenizerErrorType::UnexpectedCharInExponentLiteral)
        }
    }

    /// Exponent digits after the first one.
    fn parse_number_e0(&mut self) -> (r: Result<JsonTokenType, TokenizerErrorType>)
        requires
            old(self).pos <= old(self).input@.len(),
        ensures
            final(self).input@ == old(self).input@,
            old(self).pos <= final(self).pos <= final(self).input@.len(),
            match spec_number_e0(old(self).input@, old(self).pos as int) {
                Ok((k, end)) => r == Ok::<JsonTokenType, TokenizerErrorType>(k) && final(self).pos
                    == end,
                Err((et, ep)) => r == Err::<JsonTokenType, TokenizerErrorType>(et) && final(self).pos == ep,
            },
    {
        loop
            invariant
                self.pos <= self.input@.len(),
                self.input@ == old(self).input@,
                old(self).pos <= self.pos,
                spec_number_e0(old(self).input@, old(self).pos as int) == spec_number_e0(
                    self.input@,
                    self.pos as int,
                ),
            decreases self.input@.len() - self.pos,
        {
            let c = self.read_or_null();
            if c == 0 {
                return Ok(JsonTokenType::Number);
            } else if 48 <= c && c <= 57 {
                // keep consuming digits
            } else {
                self.rewind();
                return Ok(JsonTokenType::Number);
            }
        }
    }

    /// The keyword `true` after its leading byte, case-insensitively.
    pub(crate) fn parse_true(&mut self) -> (r: Result<JsonTokenType, TokenizerErrorType>)
        requires
            old(self).pos <= old(self).input@.len(),
        ensures
            final(self).input@ == old(self).input@,
            old(self).pos <= final(self).pos <= final(self).input@.len(),
            match spec_true(old(self).input@, old(self).pos as int) {
                Ok((k, end)) => r == Ok::<JsonTokenType, TokenizerErrorType>(k) && final(self).pos
                    == end,
                Err((et, ep)) => r == Err::<JsonTokenType, TokenizerErrorType>(et) && final(self).pos == ep,
            },
    {
        let c1 = self.read_or_null();
        if !(c1 == 114 || c1 == 82) {
            return Err(TokenizerErrorType::UnexpectedCharInTrueLiteral);
        }
        let c2 = self.read_or_null();
        if !(c2 == 117 || c2 == 85) {
            return Err(TokenizerErrorType::UnexpectedCharInTrueLiteral);
        }
        let c3 = self.read_or_null();
        if !(c3 == 101 || c3 == 69) {
            return Err(TokenizerErrorType::UnexpectedCharInTrueLiteral);
        }
        Ok(JsonTokenType::True)
    }

    /// The keyword `false` after its leading byte, case-insensitively.
    pub(crate) fn parse_false(&mut self) -> (r: Result<JsonTokenType, TokenizerErrorType>)
        requires
            old(self).pos <= old(self).input@.len(),
        ensures
            final(self).input@ == old(self).input@,
            old(self).pos <= final(self).pos <= final(self).input@.len(),
            match spec_false(old(self).input@, old(self).pos as int) {
                Ok((k, end)) => r == Ok::<JsonTokenType, TokenizerErrorType>(k) && final(self).pos
                    == end,
                Err((et, ep)) => r == Err::<JsonTokenType, TokenizerErrorType>(et) && final(self).pos == ep,
            },
    {
        let c1 = self.read_or_null();
        if !(c1 == 97 || c1 == 65) {
            return Err(TokenizerErrorType::UnexpectedCharInFalseLiteral);
        }
        let c2 = self.read_or_null();
        if !(c2 == 108 || c2 == 76) {
            return Err(TokenizerErrorType::UnexpectedCharInFalseLiteral);
        }
        let c3 = self.read_or_null();
        if !(c3 == 115 || c3 == 83) {
            return Err(TokenizerErrorType::UnexpectedCharInFalseLiteral);
        }
        let c4 = self.read_or_null();
        if !(c4 == 101 || c4 == 69) {
            return Err(TokenizerErrorType::UnexpectedCharInFalseLiteral);
        }
        Ok(JsonTokenType::False)
    }

    /// The keyword `null` after its leading byte, case-insensitively.
    pub(crate) fn parse_null(&mut self) -> (r: Result<JsonTokenType, TokenizerErrorType>)
        requires
            old(self).pos <= old(self).input@.len(),
        ensures
            final(self).input@ == old(self).input@,
            old(self).pos <= final(self).pos <= final(self).input@.len(),
            match spec_null(old(self).input@, old(self).pos as int) {
                Ok((k, end)) => r == Ok::<JsonTokenType, TokenizerErrorType>(k) && final(self).pos
                    == end,
                Err((et, ep)) => r == Err::<JsonTokenType, TokenizerErrorType>(et) && final(self).pos == ep,
            },
    {
        let c1 = self.read_or_null();
        if !(c1 == 117 || c1 == 85) {
            return Err(TokenizerErrorType::UnexpectedCharInNullLiteral);
        }
        let c2 = self.read_or_null();
        if !(c2 == 108 || c2 == 76) {
            return Err(TokenizerErrorType::UnexpectedCharInNullLiteral);
        }
        let c3 = self.read_or_null();
        if !(c3 == 108 || c3 == 76) {
            return Err(TokenizerErrorType::UnexpectedCharInNullLiteral);
        }
        Ok(JsonTokenType::Null)
    }

    /// Skip ASCII whitespace, leaving the offset on the first byte that is
    /// not whitespace, or at the end of the input.
    pub(crate) fn parse_whitespace(&mut self)
        requires
            old(self).pos <= old(self).input@.len(),
        ensures
            final(self).input@ == old(self).input@,
            old(self).pos <= final(self).pos <= final(self).input@.len(),
            final(self).pos == spec_ws_end(old(self).input@, old(self).pos as int),
    {
        while self.pos < self.input.len()
            invariant
                self.pos <= self.input@.len(),
                self.input@ == old(self).input@,
                old(self).pos <= self.pos,
                spec_ws_end(old(self).input@, old(self).pos as int) == spec_ws_end(
                    self.input@,
                    self.pos as int,
                ),
            ensures
                self.pos <= self.input@.len(),
                self.input@ == old(self).input@,
                old(self).pos <= self.pos,
                self.pos as int == spec_ws_end(old(self).input@, old(self).pos as int),
            decreases self.input@.len() - self.pos,
        {
            let c = *slice_index_get(self.input, self.pos);
            if !(c == 32 || c == 9 || c == 10 || c == 13) {
                break ;
            }
            self.pos = self.pos + 1;
        }
    }

    /// Lex one token starting exactly at the current offset: dispatch on
    /// the first byte.
    pub(crate) fn parse_token(&mut self) -> (r: Result<JsonTokenType, TokenizerErrorType>)
        requires
            old(self).pos <= old(self).input@.len(),
        ensures
            final(self).input@ == old(self).input@,
            old(self).pos <= final(self).pos <= final(self).input@.len(),
            match spec_parse_token(old(self).input@, old(self).pos as int) {
                Ok((k, end)) => r == Ok::<JsonTokenType, TokenizerErrorType>(k) && final(self).pos
                    == end,
                Err((et, ep)) => r == Err::<JsonTokenType, TokenizerErrorType>(et) && final(self).pos == ep,
            },
    {
        let c = self.read_or_null();
        if c == 0 {
            Ok(JsonTokenType::End)
        } else if c == 123 {
            Ok(JsonTokenType::ObjectStart)
        } else if c == 125 {
            Ok(JsonTokenType::ObjectEnd)
        } else if c == 58 {
            Ok(JsonTokenType::ObjectKeyDelim)
        } else if c == 91 {
            Ok(JsonTokenType::ArrayStart)
        } else if c == 93 {
            Ok(JsonTokenType::ArrayEnd)
        } else if c == 44 {
            Ok(JsonTokenType::ListDelim)
        } else if c == 34 {
            self.parse_string()
        } else if c == 45 {
            self.parse_number_neg()
        } else if c == 48 {
            self.parse_number_zero()
        } else if 49 <= c && c <= 57 {
            self.parse_number_one()
        } else if c == 116 || c == 84 {
            self.parse_true()
        } else if c == 102 || c == 70 {
            self.parse_false()
        } else if c == 110 || c == 78 {
            self.parse_null()
        } else {
            Err(TokenizerErrorType::UnexpectedBeginChar)
        }
    }
}

} // verus!
