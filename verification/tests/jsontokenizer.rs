use std::str::from_utf8;

use jsonscan::jsontokenizer::{JsonTokenizer, TokenizerErrorType};
use jsonscan::jsontokenizer_token::JsonTokenType;
use jsonscan::jsontokenizerx::JsonTokenizerX;

fn assert_step(tokenizer: &mut JsonTokenizer, expected_type: JsonTokenType, expected_value: &str) {
    let token = tokenizer.step().unwrap();
    assert_eq!(token.token_type, expected_type);
    assert_eq!(from_utf8(token.value).unwrap(), expected_value);
}

fn assert_single_value(input: &str, expected_type: JsonTokenType) {
    let mut t = JsonTokenizer::new(input.as_bytes());
    assert_step(&mut t, expected_type, input);
    assert_step(&mut t, JsonTokenType::End, "");

    let mut s = JsonTokenizerX::new(input.as_bytes());
    s.skip_over_value().unwrap();
    let end_token = s.step().unwrap();
    assert_eq!(end_token, JsonTokenType::End);
}

#[test]
fn jsontokenizer_object() {
    let mut t = JsonTokenizer::new(
        r#"{
                "a": "5b47eb0936ff92a567a0307e",
                "b": false
            }"#
        .as_bytes(),
    );

    assert_step(&mut t, JsonTokenType::ObjectStart, "{");
    assert_step(&mut t, JsonTokenType::String, "\"a\"");
    assert_step(&mut t, JsonTokenType::ObjectKeyDelim, ":");
    assert_step(&mut t, JsonTokenType::String, "\"5b47eb0936ff92a567a0307e\"");
    assert_step(&mut t, JsonTokenType::ListDelim, ",");
    assert_step(&mut t, JsonTokenType::String, "\"b\"");
    assert_step(&mut t, JsonTokenType::ObjectKeyDelim, ":");
    assert_step(&mut t, JsonTokenType::False, "false");
    assert_step(&mut t, JsonTokenType::ObjectEnd, "}");
    assert_step(&mut t, JsonTokenType::End, "");
}

#[test]
fn jsontokenizer_array() {
    let mut t = JsonTokenizer::new(
        r#"[
                1,
                2999.22,
                null,
                "hello\u2932world"
            ]"#
        .as_bytes(),
    );

    assert_step(&mut t, JsonTokenType::ArrayStart, "[");
    assert_step(&mut t, JsonTokenType::Integer, "1");
    assert_step(&mut t, JsonTokenType::ListDelim, ",");
    assert_step(&mut t, JsonTokenType::Number, "2999.22");
    assert_step(&mut t, JsonTokenType::ListDelim, ",");
    assert_step(&mut t, JsonTokenType::Null, "null");
    assert_step(&mut t, JsonTokenType::ListDelim, ",");
    assert_step(&mut t, JsonTokenType::EscString, "\"hello\\u2932world\"");
    assert_step(&mut t, JsonTokenType::ArrayEnd, "]");
    assert_step(&mut t, JsonTokenType::End, "");
}

#[test]
fn jsontokenizer_string() {
    assert_single_value(r#""hello world""#, JsonTokenType::String);
}

#[test]
fn jsontokenizer_escstring() {
    assert_single_value(r#""l\nol""#, JsonTokenType::EscString);
    assert_single_value(r#""l\u2321ol""#, JsonTokenType::EscString);
}

#[test]
fn jsontokenizer_integer() {
    assert_single_value("0", JsonTokenType::Integer);
    assert_single_value("123", JsonTokenType::Integer);
    assert_single_value("4565464651846548", JsonTokenType::Integer);
    assert_single_value("-0", JsonTokenType::Integer);
    assert_single_value("-123", JsonTokenType::Integer);
    assert_single_value("-4565464651846548", JsonTokenType::Integer);
}

#[test]
fn jsontokenizer_number() {
    assert_single_value("0.1", JsonTokenType::Number);
    assert_single_value("1999.1", JsonTokenType::Number);
    assert_single_value("14.29438383", JsonTokenType::Number);
    assert_single_value("1.0E+2", JsonTokenType::Number);
    assert_single_value("1.9e+22", JsonTokenType::Number);
    assert_single_value("-0.1", JsonTokenType::Number);
    assert_single_value("-1999.1", JsonTokenType::Number);
    assert_single_value("-14.29438383", JsonTokenType::Number);
    assert_single_value("-1.0E+2", JsonTokenType::Number);
    assert_single_value("-1.9e+22", JsonTokenType::Number);
}

#[test]
fn jsontokenizer_bool() {
    assert_single_value("true", JsonTokenType::True);
    assert_single_value("TRUE", JsonTokenType::True);
    assert_single_value("tRuE", JsonTokenType::True);
    assert_single_value("TrUe", JsonTokenType::True);

    assert_single_value("false", JsonTokenType::False);
    assert_single_value("FALSE", JsonTokenType::False);
    assert_single_value("fAlSe", JsonTokenType::False);
    assert_single_value("FaLsE", JsonTokenType::False);
}

#[test]
fn jsontokenizer_null() {
    assert_single_value("null", JsonTokenType::Null);
    assert_single_value("NULL", JsonTokenType::Null);
    assert_single_value("nUlL", JsonTokenType::Null);
    assert_single_value("NuLl", JsonTokenType::Null);
}

#[test]
fn jsontokenizer_ends_forever() {
    let mut t = JsonTokenizer::new(r#""hello world""#.as_bytes());
    assert_step(&mut t, JsonTokenType::String, "\"hello world\"");
    assert_step(&mut t, JsonTokenType::End, "");
    assert_step(&mut t, JsonTokenType::End, "");
}

#[test]
fn jsontokenizer_negative_number_whole_input() {
    let mut t = JsonTokenizer::new("-1.9e+22".as_bytes());
    assert_step(&mut t, JsonTokenType::Number, "-1.9e+22");
    assert_step(&mut t, JsonTokenType::End, "");
}

#[test]
fn jsontokenizer_whitespace_only() {
    let mut t = JsonTokenizer::new(" \t\r\n ".as_bytes());
    assert_step(&mut t, JsonTokenType::End, "");
}

#[test]
fn jsontokenizer_leading_zero_splits() {
    // A zero-led literal ends after the zero; the remaining digits form
    // their own integer token.
    let mut t = JsonTokenizer::new("0123".as_bytes());
    assert_step(&mut t, JsonTokenType::Integer, "0");
    assert_step(&mut t, JsonTokenType::Integer, "123");
    assert_step(&mut t, JsonTokenType::End, "");
}

fn assert_error(input: &str, expected: TokenizerErrorType) {
    let mut t = JsonTokenizer::new(input.as_bytes());
    loop {
        match t.step() {
            Ok(token) => {
                assert_ne!(token.token_type, JsonTokenType::End, "input {:?} tokenized cleanly", input);
            }
            Err(e) => {
                assert_eq!(e.error_type, expected, "input {:?}", input);
                return;
            }
        }
    }
}

#[test]
fn jsontokenizer_error_kinds() {
    assert_error("\"abc", TokenizerErrorType::UnexpectedEndOfInput);
    assert_error("@", TokenizerErrorType::UnexpectedBeginChar);
    assert_error("\"a\\x\"", TokenizerErrorType::UnexpectedEscapeCode);
    assert_error("\"a\\u12g4\"", TokenizerErrorType::UnexpectedEscapeCode);
    assert_error("-x", TokenizerErrorType::UnexpectedCharInNumericLiteral);
    assert_error("1.x", TokenizerErrorType::UnexpectedCharInNumericLiteral);
    assert_error("1e+x", TokenizerErrorType::UnexpectedCharInExponentLiteral);
    assert_error("trxe", TokenizerErrorType::UnexpectedCharInTrueLiteral);
    assert_error("faxse", TokenizerErrorType::UnexpectedCharInFalseLiteral);
    assert_error("nuxl", TokenizerErrorType::UnexpectedCharInNullLiteral);
}

#[test]
fn jsontokenizer_error_offset() {
    let mut t = JsonTokenizer::new("@".as_bytes());
    let e = t.step().unwrap_err();
    assert_eq!(e.error_type, TokenizerErrorType::UnexpectedBeginChar);
    assert_eq!(e.pos, 1);
}

#[test]
fn jsontokenizer_is_literal() {
    assert!(JsonTokenType::String.is_literal());
    assert!(JsonTokenType::EscString.is_literal());
    assert!(JsonTokenType::Integer.is_literal());
    assert!(JsonTokenType::Number.is_literal());
    assert!(JsonTokenType::Null.is_literal());
    assert!(JsonTokenType::True.is_literal());
    assert!(JsonTokenType::False.is_literal());
    assert!(!JsonTokenType::ObjectStart.is_literal());
    assert!(!JsonTokenType::ObjectEnd.is_literal());
    assert!(!JsonTokenType::ObjectKeyDelim.is_literal());
    assert!(!JsonTokenType::ArrayStart.is_literal());
    assert!(!JsonTokenType::ArrayEnd.is_literal());
    assert!(!JsonTokenType::ListDelim.is_literal());
    assert!(!JsonTokenType::End.is_literal());
}

#[test]
fn jsontokenizer_compact_object() {
    let mut t = JsonTokenizer::new(br#"{"a":"5b47","b":false}"#);
    assert_step(&mut t, JsonTokenType::ObjectStart, "{");
    assert_step(&mut t, JsonTokenType::String, "\"a\"");
    assert_step(&mut t, JsonTokenType::ObjectKeyDelim, ":");
    assert_step(&mut t, JsonTokenType::String, "\"5b47\"");
    assert_step(&mut t, JsonTokenType::ListDelim, ",");
    assert_step(&mut t, JsonTokenType::String, "\"b\"");
    assert_step(&mut t, JsonTokenType::ObjectKeyDelim, ":");
    assert_step(&mut t, JsonTokenType::False, "false");
    assert_step(&mut t, JsonTokenType::ObjectEnd, "}");
    assert_step(&mut t, JsonTokenType::End, "");
}

#[test]
fn jsontokenizer_compact_array() {
    let mut t = JsonTokenizer::new(br#"[1,2999.22,null,"hi\u2932!"]"#);
    let kinds = [
        JsonTokenType::ArrayStart,
        JsonTokenType::Integer,
        JsonTokenType::ListDelim,
        JsonTokenType::Number,
        JsonTokenType::ListDelim,
        JsonTokenType::Null,
        JsonTokenType::ListDelim,
        JsonTokenType::EscString,
        JsonTokenType::ArrayEnd,
        JsonTokenType::End,
    ];
    for expected in kinds {
        let token = t.step().unwrap();
        assert_eq!(token.token_type, expected);
    }
}
