//! Lexical token kinds and the zero-copy token emitted by the tokenizer.

use vstd::prelude::*;

verus! {

/// The semantic class of a lexical element of a JSON document.
#[derive(Debug, PartialEq, Eq, Structural, Clone, Copy)]
pub enum JsonTokenType {
    ObjectStart,
    ObjectEnd,
    ObjectKeyDelim,
    ArrayStart,
    ArrayEnd,
    ListDelim,
    String,
    EscString,
    Integer,
    Number,
    Null,
    True,
    False,
    End,
}

impl JsonTokenType {
    /// Whether the token carries a literal payload (a string, a number, or
    /// one of the keywords), as opposed to pure structure or the terminal.
    pub fn is_literal(&self) -> (r: bool)
        ensures
            r == self.spec_is_literal(),
    {
        match self {
            JsonTokenType::ObjectStart => false,
            JsonTokenType::ObjectEnd => false,
            JsonTokenType::ObjectKeyDelim => false,
            JsonTokenType::ArrayStart => false,
            JsonTokenType::ArrayEnd => false,
            JsonTokenType::ListDelim => false,
            JsonTokenType::String => true,
            JsonTokenType::EscString => true,
            JsonTokenType::Integer => true,
            JsonTokenType::Number => true,
            JsonTokenType::Null => true,
            JsonTokenType::True => true,
            JsonTokenType::False => true,
            JsonTokenType::End => false,
        }
    }

    /// The literal kinds are exactly those that a value dispatch can begin.
    pub open spec fn spec_is_literal(self) -> bool {
        match self {
            JsonTokenType::String => true,
            JsonTokenType::EscString => true,
            JsonTokenType::Integer => true,
            JsonTokenType::Number => true,
            JsonTokenType::Null => true,
            JsonTokenType::True => true,
            JsonTokenType::False => true,
            _ => false,
        }
    }
}

/// A token: its kind plus a byte-slice view into the input covering exactly
/// the token's extent.
#[derive(Debug)]
pub struct JsonToken<'a> {
    pub token_type: JsonTokenType,
    pub value: &'a [u8],
}

} // verus!
