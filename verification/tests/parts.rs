// Unit tests of the lexer, the literal resolver and the rendering helpers.

use rpn_stack::lexer::is_float_literal;
use rpn_stack::lexer::parse_data_type;
use rpn_stack::lexer::parse_int;
use rpn_stack::lexer::read_stack;
use rpn_stack::lexer::Literal;
use rpn_stack::utils::i64_to_string;
use rpn_stack::utils::most_generic_type;
use rpn_stack::utils::parse_bool;
use rpn_stack::utils::parse_string;
use rpn_stack::utils::token_text;
use rpn_stack::utils::Token;

#[test]
fn read_stack_splits_on_whitespace() {
    let text = "1 2\n3\t4  \r\n 5".to_string();
    let lexemes = read_stack(&text);
    assert_eq!(lexemes, vec!["1", "2", "3", "4", "5"]);
    assert_eq!(read_stack(&"".to_string()), Vec::<String>::new());
    assert_eq!(read_stack(&"  \n ".to_string()), Vec::<String>::new());
}

#[test]
fn parse_int_accepts_signed_decimals() {
    assert_eq!(parse_int("42"), Some(42));
    assert_eq!(parse_int("-42"), Some(-42));
    assert_eq!(parse_int("+7"), Some(7));
    assert_eq!(parse_int("007"), Some(7));
    assert_eq!(parse_int("9223372036854775807"), Some(i64::MAX));
    assert_eq!(parse_int("-9223372036854775808"), Some(i64::MIN));
}

#[test]
fn parse_int_rejects_garbage_and_overflow() {
    assert_eq!(parse_int(""), None);
    assert_eq!(parse_int("+"), None);
    assert_eq!(parse_int("1.0"), None);
    assert_eq!(parse_int("12a"), None);
    assert_eq!(parse_int("9223372036854775808"), None);
    assert_eq!(parse_int("-9223372036854775809"), None);
}

#[test]
fn float_literal_grammar() {
    assert!(is_float_literal("1.0"));
    assert!(is_float_literal("-1.5e-3"));
    assert!(is_float_literal("5."));
    assert!(is_float_literal(".5"));
    assert!(is_float_literal("5e3"));
    assert!(is_float_literal("inf"));
    assert!(is_float_literal("-Infinity"));
    assert!(is_float_literal("NaN"));
    assert!(!is_float_literal("."));
    assert!(!is_float_literal("e5"));
    assert!(!is_float_literal("5e"));
    assert!(!is_float_literal("1.2.3"));
    assert!(!is_float_literal("abc"));
}

#[test]
fn parse_string_strips_quotes() {
    assert_eq!(parse_string("\"hi\""), Ok("hi".to_string()));
    assert_eq!(parse_string("\"\""), Ok("".to_string()));
    assert_eq!(parse_string("\"hi"), Err(()));
    assert_eq!(parse_string("hi"), Err(()));
    assert_eq!(parse_string("\""), Err(()));
}

#[test]
fn parse_bool_is_exact() {
    assert_eq!(parse_bool("true"), Ok(true));
    assert_eq!(parse_bool("false"), Ok(false));
    assert_eq!(parse_bool("True"), Err(()));
    assert_eq!(parse_bool("truee"), Err(()));
}

#[test]
fn resolver_tries_kinds_in_order() {
    assert_eq!(
        parse_data_type(&"5".to_string()),
        Some(Literal::Value(Token::Int(5)))
    );
    assert_eq!(parse_data_type(&"5.0".to_string()), Some(Literal::FloatText));
    assert_eq!(parse_data_type(&"nan".to_string()), Some(Literal::FloatText));
    assert_eq!(
        parse_data_type(&"\"true\"".to_string()),
        Some(Literal::Value(Token::Str("true".to_string())))
    );
    assert_eq!(
        parse_data_type(&"true".to_string()),
        Some(Literal::Value(Token::Bool(true)))
    );
    assert_eq!(parse_data_type(&"DROP".to_string()), None);
    assert_eq!(parse_data_type(&"bogus".to_string()), None);
}

#[test]
fn int_rendering() {
    assert_eq!(i64_to_string(0), "0");
    assert_eq!(i64_to_string(42), "42");
    assert_eq!(i64_to_string(-7), "-7");
    assert_eq!(i64_to_string(i64::MIN), "-9223372036854775808");
    assert_eq!(i64_to_string(i64::MAX), "9223372036854775807");
}

#[test]
fn token_rendering() {
    assert_eq!(token_text(&Token::Int(5)), Some("5".to_string()));
    assert_eq!(token_text(&Token::Bool(true)), Some("true".to_string()));
    assert_eq!(
        token_text(&Token::Str("abc".to_string())),
        Some("abc".to_string())
    );
    assert_eq!(token_text(&Token::Float(0)), None);
}

#[test]
fn most_generic_prefers_higher_ordinal() {
    let i = Token::Int(1);
    let f = Token::Float(0);
    let s = Token::Str("s".to_string());
    let b = Token::Bool(false);
    assert_eq!(most_generic_type(&i, &f), Token::Float(0));
    assert_eq!(most_generic_type(&f, &s), Token::Str("s".to_string()));
    assert_eq!(most_generic_type(&s, &b), Token::Bool(false));
    assert_eq!(most_generic_type(&i, &i), Token::Int(1));
}
