use jsonscan::jsontokenizer::{JsonTokenizer, TokenizerErrorType};
use jsonscan::jsontokenizer_token::JsonTokenType;
use jsonscan::jsontokenizerx::JsonTokenizerX;

fn assert_end(t: &mut JsonTokenizer) {
    let token = t.step().unwrap();
    assert_eq!(token.token_type, JsonTokenType::End);
}

#[test]
fn skipengine_nested_object() {
    let input = br#"{"x":{"y":[1,2,3]},"z":4}"#;
    let mut t = JsonTokenizer::new(input);
    t.skip_value().unwrap();
    assert_end(&mut t);
}

#[test]
fn skipengine_escaped_string() {
    // Six bytes: the cursor lands one past the closing quote.
    let input = br#""a\"b""#;
    assert_eq!(input.len(), 6);
    let mut t = JsonTokenizer::new(input);
    t.skip_value().unwrap();
    assert_end(&mut t);

    // With a trailing value the cursor sits exactly after the string.
    let mut t2 = JsonTokenizer::new(br#""a\"b" 7"#);
    t2.skip_value().unwrap();
    let token = t2.step().unwrap();
    assert_eq!(token.token_type, JsonTokenType::Integer);
    assert_eq!(token.value, b"7");
}

#[test]
fn skipengine_string_with_brackets() {
    // Brackets inside strings must not disturb the depth accounting.
    let input = br#"{"a":"}{][","b":["{"]}"#;
    let mut t = JsonTokenizer::new(input);
    t.skip_value().unwrap();
    assert_end(&mut t);
}

#[test]
fn skipengine_scalars() {
    for input in ["true", "false", "null", "TRUE", "-12.5e+3", "42", "\"s\""] {
        let mut t = JsonTokenizer::new(input.as_bytes());
        t.skip_value().unwrap();
        assert_end(&mut t);
    }
}

#[test]
fn skipengine_leading_whitespace() {
    let mut t = JsonTokenizer::new(b"  \t\n [1, 2] ");
    t.skip_value().unwrap();
    assert_end(&mut t);
}

#[test]
fn skipengine_unterminated_object() {
    let mut t = JsonTokenizer::new(br#"{"a": [1, 2"#);
    let e = t.skip_value().unwrap_err();
    assert_eq!(e.error_type, TokenizerErrorType::UnexpectedEndOfInput);
}

#[test]
fn skipengine_empty_input() {
    let mut t = JsonTokenizer::new(b"");
    let e = t.skip_value().unwrap_err();
    assert_eq!(e.error_type, TokenizerErrorType::UnexpectedEndOfInput);
}

#[test]
fn skipengine_bad_begin_char() {
    let mut t = JsonTokenizer::new(b"@");
    let e = t.skip_value().unwrap_err();
    assert_eq!(e.error_type, TokenizerErrorType::UnexpectedBeginChar);
}

#[test]
fn skipengine_leave_value() {
    let mut t = JsonTokenizer::new(br#"{"a": 1, "b": [2, 3]}"#);
    let token = t.step().unwrap();
    assert_eq!(token.token_type, JsonTokenType::ObjectStart);
    t.leave_value().unwrap();
    assert_end(&mut t);
}

#[test]
fn skipengine_x_nested_object() {
    let mut s = JsonTokenizerX::new(br#"{"x":{"y":[1,2,3]},"z":4}"#);
    s.skip_over_value().unwrap();
    assert_eq!(s.step().unwrap(), JsonTokenType::End);
}

#[test]
fn skipengine_x_string_with_brackets() {
    let mut s = JsonTokenizerX::new(br#"{"a":"}{][","b":["{"]}"#);
    s.skip_over_value().unwrap();
    assert_eq!(s.step().unwrap(), JsonTokenType::End);
}

#[test]
fn skipengine_x_escaped_quote() {
    let mut s = JsonTokenizerX::new(br#""a\"b""#);
    s.skip_over_value().unwrap();
    assert_eq!(s.step().unwrap(), JsonTokenType::End);
}

#[test]
fn skipengine_x_array() {
    let mut s = JsonTokenizerX::new(br#"[1, "two", {"three": 3}, null]"#);
    s.skip_over_value().unwrap();
    assert_eq!(s.step().unwrap(), JsonTokenType::End);
}

#[test]
fn skipengine_x_object_then_array() {
    let mut s = JsonTokenizerX::new(br#"{"a": 1} [2]"#);
    s.skip_over_value().unwrap();
    s.skip_over_value().unwrap();
    assert_eq!(s.step().unwrap(), JsonTokenType::End);
}

#[test]
fn skipengine_x_unterminated() {
    let mut s = JsonTokenizerX::new(br#"{"a": "#);
    assert_eq!(s.skip_over_value(), Err(TokenizerErrorType::UnexpectedEndOfInput));
}

#[test]
fn skipengine_x_long_input() {
    // Long enough that the walker's scanning path crosses several
    // 16-byte chunks, with strings straddling chunk borders.
    let input = br#"{"k1":"0123456789abcdef","k2":[1,2,3,4,5,6,7,8],"k3":{"deep":"}]value["}}"#;
    let mut s = JsonTokenizerX::new(input);
    s.skip_over_value().unwrap();
    assert_eq!(s.step().unwrap(), JsonTokenType::End);

    let mut t = JsonTokenizer::new(input);
    t.skip_value().unwrap();
    assert_end(&mut t);
}
