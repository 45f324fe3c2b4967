use wiz::literal_lexer::{
    boolean_literal, floating_point_literal, integer_literal, literal_expr, raw_string_literal, string_literal,
    LiteralToken,
};

fn string_token(open: &str, value: &str, close: &str) -> LiteralToken {
    LiteralToken::String { open_quote: open.to_string(), value: value.to_string(), close_quote: close.to_string() }
}

fn check(source: &str, parser: fn(&str) -> Option<(&str, LiteralToken)>, expected: LiteralToken) {
    match parser(source) {
        Some((_, actual)) => assert_eq!(actual, expected),
        None => panic!("no literal in {:?}", source),
    }
}

#[test]
fn test_integer_literal() {
    assert_eq!(integer_literal("1"), Some(("", LiteralToken::Integer("1".to_string()))));
    assert_eq!(integer_literal("12"), Some(("", LiteralToken::Integer("12".to_string()))));
}

#[test]
fn test_floating_point_literal() {
    assert_eq!(floating_point_literal("1.0"), Some(("", LiteralToken::FloatingPoint("1.0".to_string()))));
    assert_eq!(floating_point_literal("12.0"), Some(("", LiteralToken::FloatingPoint("12.0".to_string()))));
    assert_eq!(
        floating_point_literal("13847.03478"),
        Some(("", LiteralToken::FloatingPoint("13847.03478".to_string())))
    );
}

#[test]
fn test_number_literal() {
    assert_eq!(literal_expr("1.1"), Some(("", LiteralToken::FloatingPoint("1.1".to_string()))));
}

#[test]
fn test_raw_string_literal() {
    assert_eq!(raw_string_literal("r\"\""), Some(("", string_token("r\"", "", "\""))));
    assert_eq!(raw_string_literal("r\"\\\\\""), Some(("", string_token("r\"", "\\\\", "\""))));
}

#[test]
fn test_string_literal() {
    check("\"s\\t\\ri\\ng\\\\\"", string_literal, string_token("\"", "s\t\ri\ng\\", "\""));
    check(r#""""#, string_literal, string_token("\"", "", "\""));
}

#[test]
fn test_boolean_literal() {
    assert_eq!(boolean_literal("true"), Some(("", LiteralToken::Boolean("true".to_string()))));
}

#[test]
fn literals_leave_the_rest() {
    assert_eq!(integer_literal("42+x"), Some(("+x", LiteralToken::Integer("42".to_string()))));
    assert_eq!(integer_literal("x"), None);
    assert_eq!(floating_point_literal("1."), None);
    assert_eq!(floating_point_literal("1"), None);
    assert_eq!(boolean_literal("false)"), Some((")", LiteralToken::Boolean("false".to_string()))));
    assert_eq!(boolean_literal("tru"), None);
    assert_eq!(literal_expr("7 "), Some((" ", LiteralToken::Integer("7".to_string()))));
    assert_eq!(literal_expr("x"), None);
}

#[test]
fn string_escapes() {
    assert_eq!(string_literal("\"a\\u0041\"!"), Some(("!", string_token("\"", "aA", "\""))));
    assert_eq!(string_literal("\"\\0042u\""), Some(("", string_token("\"", "B", "\""))));
    assert_eq!(string_literal("\"\\uD800\""), Some(("", string_token("\"", "\u{FFFD}", "\""))));
    assert_eq!(string_literal("\"\\'\\\"\""), Some(("", string_token("\"", "'\"", "\""))));
    assert_eq!(string_literal("\"\\q\""), None);
    assert_eq!(string_literal("\"open"), None);
    assert_eq!(string_literal("\"\\u12\""), None);
}

#[test]
fn raw_string_parts_in_any_order() {
    assert_eq!(raw_string_literal("r\"a\\b\" x"), Some((" x", string_token("r\"", "a\\b", "\""))));
    assert_eq!(raw_string_literal("\"r\""), Some(("", string_token("r\"", "", "\""))));
    assert_eq!(raw_string_literal("r\"open"), None);
    assert_eq!(raw_string_literal("\"\""), None);
    assert_eq!(literal_expr("r\"x\""), Some(("", string_token("r\"", "x", "\""))));
}
