//! The zero-copy JSON tokenizer.
//!
//! `step` skips ASCII whitespace, dispatches on the next byte, and hands
//! back a token whose byte view covers exactly the token's extent.  What
//! `step` returns, byte for byte, is pinned down by the spec model in
//! `jsontokenizer_spec`.

use crate::jsontokenizer_spec::{spec_skip_over_value, spec_skip_walker, spec_step};
use crate::jsontokenizer_token::{JsonToken, JsonTokenType};
use vstd::prelude::*;
use vstd::slice::slice_subrange;

verus! {

/// The reasons a scan can fail, each detected at one byte offset.
#[derive(Debug, PartialEq, Eq, Structural, Clone, Copy)]
pub enum TokenizerErrorType {
    UnexpectedEndOfInput,
    UnexpectedBeginChar,
    UnexpectedEscapeCode,
    UnexpectedCharInNumericLiteral,
    UnexpectedCharInExponentLiteral,
    UnexpectedCharInTrueLiteral,
    UnexpectedCharInFalseLiteral,
    UnexpectedCharInNullLiteral,
}

/// A failure report: the reason plus the offset at which it was detected.
#[derive(Debug)]
pub struct TokenizerError {
    pub error_type: TokenizerErrorType,
    pub pos: usize,
}

/// Input byte slice plus the current offset.
pub struct JsonTokenizer<'a> {
    pub(crate) input: &'a [u8],
    pub(crate) pos: usize,
}

impl<'a> JsonTokenizer<'a> {
    /// The input bytes being tokenized.
    pub closed spec fn spec_bytes(&self) -> Seq<u8> {
        self.input@
    }

    /// The current offset; always within `[0, input length]`.
    pub closed spec fn spec_pos(&self) -> int {
        self.pos as int
    }

    /// The offset never runs past the end of the input.
    pub open spec fn wf(&self) -> bool {
        self.spec_pos() <= self.spec_bytes().len()
    }

    pub fn new(input: &'a [u8]) -> (r: JsonTokenizer<'a>)
        ensures
            r.spec_bytes() == input@,
            r.spec_pos() == 0,
            r.wf(),
    {
        JsonTokenizer { input, pos: 0 }
    }

    /// Read the byte at the current offset and advance, or answer 0 at the
    /// end of the input without moving.
    pub(crate) fn read_or_null(&mut self) -> (c: u8)
        ensures
            final(self).input@ == old(self).input@,
            old(self).pos >= old(self).input@.len() ==> c == 0 && final(self).pos == old(self).pos,
            old(self).pos < old(self).input@.len() ==> c == old(self).input@[old(self).pos as int]
                && final(self).pos == old(self).pos + 1,
    {
        if self.pos >= self.input.len() {
            return 0;
        }
        let c = *vstd::slice::slice_index_get(self.input, self.pos);
        self.pos = self.pos + 1;
        c
    }

    /// Step one byte backwards: unread the byte that ended a literal.
    pub(crate) fn rewind(&mut self)
        requires
            old(self).pos >= 1,
        ensures
            final(self).input@ == old(self).input@,
            final(self).pos == old(self).pos - 1,
    {
        self.pos = self.pos - 1;
    }

    /// Skip whitespace, then lex one token.  The token's byte view is the
    /// sub-slice from the first non-whitespace byte to the offset where the
    /// token ended; on failure the offset is pinned to the failure offset.
    pub fn step(&mut self) -> (r: Result<JsonToken<'a>, TokenizerError>)
        requires
            old(self).wf(),
        ensures
            final(self).wf(),
            final(self).spec_bytes() == old(self).spec_bytes(),
            match spec_step(old(self).spec_bytes(), old(self).spec_pos()) {
                Ok((kind, start, end)) => match r {
                    Ok(t) => t.token_type == kind && t.value@ == old(self).spec_bytes().subrange(
                        start,
                        end,
                    ) && final(self).spec_pos() == end,
                    Err(_) => false,
                },
                Err((et, ep)) => match r {
                    Ok(_) => false,
                    Err(e) => e.error_type == et && e.pos == ep && final(self).spec_pos() == ep,
                },
            },
    {
        self.parse_whitespace();
        let start_pos = self.pos;
        let kind = match self.parse_token() {
            Ok(k) => k,
            Err(e) => {
                return Err(TokenizerError { error_type: e, pos: self.pos });
            },
        };
        let value = slice_subrange(self.input, start_pos, self.pos);
        Ok(JsonToken { token_type: kind, value })
    }

    /// Fast-forward past exactly one JSON value (scalar or nested), leaving
    /// the offset one byte past the value's last byte; on failure the
    /// offset is pinned to the failure offset.
    pub fn skip_value(&mut self) -> (r: Result<(), TokenizerError>)
        requires
            old(self).wf(),
        ensures
            final(self).wf(),
            final(self).spec_bytes() == old(self).spec_bytes(),
            match spec_skip_over_value(old(self).spec_bytes(), old(self).spec_pos()) {
                Ok(end) => r is Ok && final(self).spec_pos() == end,
                Err((et, ep)) => match r {
                    Ok(_) => false,
                    Err(e) => e.error_type == et && e.pos == ep && final(self).spec_pos() == ep,
                },
            },
    {
        match self.skip_over_value() {
            Ok(_) => Ok(()),
            Err(e) => Err(TokenizerError { error_type: e, pos: self.pos }),
        }
    }

    /// Fast-forward out of the object or array the offset currently sits
    /// in: walk until the bracket nesting depth returns to zero, leaving
    /// the offset one byte past the closing bracket.
    pub fn leave_value(&mut self) -> (r: Result<(), TokenizerError>)
        requires
            old(self).wf(),
        ensures
            final(self).wf(),
            final(self).spec_bytes() == old(self).spec_bytes(),
            match spec_skip_walker(old(self).spec_bytes(), old(self).spec_pos(), 1) {
                Ok(end) => r is Ok && final(self).spec_pos() == end,
                Err((et, ep)) => match r {
                    Ok(_) => false,
                    Err(e) => e.error_type == et && e.pos == ep && final(self).spec_pos() == ep,
                },
            },
    {
        match self.skip_out_of_object_or_array() {
            Ok(_) => Ok(()),
            Err(e) => Err(TokenizerError { error_type: e, pos: self.pos }),
        }
    }
}


} // verus!
