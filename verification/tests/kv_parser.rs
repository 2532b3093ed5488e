use rustx::kv::parser::core_types::{ChangeType, Parser, ParserError};
use rustx::kv::parser::line_parser::{default_separator, parse_change_type, LineParser, LineParserConfig};
use rustx::kv::parser::parse_value::ParseValue;

#[test]
fn line_parser_test_parse_basic() {
    let config = LineParserConfig { separator: "\t".to_string() };
    let parser = LineParser::<String, String>::new(config);

    let (ct, key, value) = parser.parse(b"hello\tworld").unwrap();
    assert_eq!(ct, ChangeType::Add);
    assert_eq!(key, "hello");
    assert_eq!(value, "world");
}

#[test]
fn test_parse_with_change_type() {
    let config = LineParserConfig { separator: "\t".to_string() };
    let parser = LineParser::<String, String>::new(config);

    let (ct, _, _) = parser.parse(b"key1\tvalue1\t2").unwrap();
    assert_eq!(ct, ChangeType::Update);

    let (ct, _, _) = parser.parse(b"key2\tvalue2\tdelete").unwrap();
    assert_eq!(ct, ChangeType::Delete);
}

#[test]
fn test_parse_custom_separator() {
    let config = LineParserConfig { separator: ",".to_string() };
    let parser = LineParser::<String, i32>::new(config);

    let (ct, key, value) = parser.parse(b"count,42").unwrap();
    assert_eq!(ct, ChangeType::Add);
    assert_eq!(key, "count");
    assert_eq!(value, 42);
}

#[test]
fn test_parse_insufficient_fields() {
    let config = LineParserConfig { separator: "\t".to_string() };
    let parser = LineParser::<String, String>::new(config);

    let (ct, key, value) = parser.parse(b"only_key").unwrap();
    assert_eq!(ct, ChangeType::Unknown);
    assert_eq!(key, "");
    assert_eq!(value, "");
}

#[test]
fn test_parse_change_type_number() {
    assert_eq!(parse_change_type("1").unwrap(), ChangeType::Add);
    assert_eq!(parse_change_type("2").unwrap(), ChangeType::Update);
    assert_eq!(parse_change_type("3").unwrap(), ChangeType::Delete);
    assert_eq!(parse_change_type("0").unwrap(), ChangeType::Unknown);
    assert_eq!(parse_change_type("99").unwrap(), ChangeType::Unknown);
}

#[test]
fn test_parse_change_type_string() {
    assert_eq!(parse_change_type("add").unwrap(), ChangeType::Add);
    assert_eq!(parse_change_type("ADD").unwrap(), ChangeType::Add);
    assert_eq!(parse_change_type("update").unwrap(), ChangeType::Update);
    assert_eq!(parse_change_type("UPDATE").unwrap(), ChangeType::Update);
    assert_eq!(parse_change_type("delete").unwrap(), ChangeType::Delete);
    assert_eq!(parse_change_type("DELETE").unwrap(), ChangeType::Delete);
    assert_eq!(parse_change_type("invalid").unwrap(), ChangeType::Unknown);
}

#[test]
fn test_line_parser_config_default() {
    assert_eq!(default_separator(), "\t");
}

#[test]
fn test_line_parser_from_config() {
    let config = LineParserConfig { separator: "|".to_string() };

    let parser: LineParser<String, i32> = LineParser::new(config.clone());
    let parser_from: LineParser<String, i32> = LineParser::from(config);

    let (ct1, k1, v1) = parser.parse(b"test|123").unwrap();
    let (ct2, k2, v2) = parser_from.parse(b"test|123").unwrap();

    assert_eq!(ct1, ct2);
    assert_eq!(k1, k2);
    assert_eq!(v1, v2);
}

#[test]
fn test_parse_string() {
    let result: String = ParseValue::parse_value("hello").unwrap();
    assert_eq!(result, "hello");
}

#[test]
fn test_parse_i32() {
    let result: i32 = ParseValue::parse_value("42").unwrap();
    assert_eq!(result, 42);

    let result: Result<i32, _> = <i32 as ParseValue>::parse_value("invalid");
    assert!(result.is_err());
}

#[test]
fn test_parse_bool() {
    let result: bool = ParseValue::parse_value("true").unwrap();
    assert_eq!(result, true);

    let result: bool = ParseValue::parse_value("false").unwrap();
    assert_eq!(result, false);
}

#[test]
fn test_parse_integer_edges() {
    assert_eq!(<i8 as ParseValue>::parse_value("-128").unwrap(), -128);
    assert!(<i8 as ParseValue>::parse_value("128").is_err());
    assert_eq!(<u8 as ParseValue>::parse_value("+255").unwrap(), 255);
    assert!(<u8 as ParseValue>::parse_value("-1").is_err());
    assert!(<i32 as ParseValue>::parse_value("").is_err());
    assert!(<i32 as ParseValue>::parse_value("-").is_err());
    assert_eq!(<i64 as ParseValue>::parse_value("-9223372036854775808").unwrap(), i64::MIN);
    assert_eq!(<u128 as ParseValue>::parse_value("340282366920938463463374607431768211455").unwrap(), u128::MAX);
    assert_eq!(<i128 as ParseValue>::parse_value("-170141183460469231731687303715884105728").unwrap(), i128::MIN);
    match <i32 as ParseValue>::parse_value("4x") {
        Err(ParserError::ParseFailed(m)) => assert_eq!(m, "failed to parse i32 from '4x': invalid digit found in string"),
        _ => panic!("expected a refusal"),
    }
}

#[test]
fn test_parse_bool_refuses_other_text() {
    assert!(<bool as ParseValue>::parse_value("True").is_err());
    assert!(<bool as ParseValue>::parse_value("1").is_err());
}

#[test]
fn test_line_parser_empty_separator_splits_first_char() {
    let parser = LineParser::<String, String>::new(LineParserConfig { separator: String::new() });
    let (ct, key, value) = parser.parse(b"abc").unwrap();
    assert_eq!(ct, ChangeType::Unknown);
    assert_eq!(key, "");
    assert_eq!(value, "a");
}

#[test]
fn test_line_parser_invalid_utf8_and_bad_value() {
    let parser = LineParser::<String, i32>::new(LineParserConfig { separator: "\t".to_string() });
    match parser.parse(&[0xff, 0xfe]) {
        Err(ParserError::ParseFailed(m)) => assert!(m.starts_with("invalid UTF-8: ")),
        _ => panic!("expected a refusal"),
    }
    match parser.parse(b"k\tv") {
        Err(ParserError::ParseFailed(m)) => {
            assert_eq!(m, "failed to parse value: Parse failed: failed to parse i32 from 'v': invalid digit found in string")
        },
        _ => panic!("expected a refusal"),
    }
    let (ct, _, _) = parser.parse(b"k\t1\tUpdate").unwrap();
    assert_eq!(ct, ChangeType::Update);
    let (ct, _, _) = parser.parse(b"k\t1\t").unwrap();
    assert_eq!(ct, ChangeType::Add);
    let (ct, _, v) = parser.parse(b"k\t1\tx\ty").unwrap();
    assert_eq!(ct, ChangeType::Unknown);
    assert_eq!(v, 1);
}
