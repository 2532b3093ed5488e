use std::fmt;

use serde::de::{self, IgnoredAny, MapAccess, Visitor};
use serde::{Deserialize, Deserializer};

use rustx::kv::parser::core_types::{ChangeType, ParserError};
use rustx::kv::parser::json_parser::{
    configured_change_type, default_logic, read_document, ChangeTypeRule, Condition, JsonParser, JsonParserConfig, JsonValue,
};

fn config(fields: &[&str], rules: Vec<ChangeTypeRule>) -> JsonParserConfig {
    JsonParserConfig {
        key_fields: fields.iter().map(|s| s.to_string()).collect(),
        key_separator: "_".to_string(),
        change_type_rules: rules,
    }
}

fn doc(text: &str) -> JsonValue {
    read_document(text.as_bytes()).unwrap()
}

fn cond(field: &str, value: JsonValue) -> Condition {
    Condition { field: field.to_string(), value }
}

fn string(s: &str) -> JsonValue {
    JsonValue::Str(s.to_string())
}

#[test]
fn json_parser_test_generate_key_single_field() {
    let parser = JsonParser::<String, String>::new(config(&["id"], vec![]));

    let data = doc(r#"{"id": "user123", "name": "Alice"}"#);
    let key = parser.generate_key(&data).unwrap();
    assert_eq!(key, "user123");
}

#[test]
fn test_generate_key_multiple_fields() {
    let parser = JsonParser::<String, String>::new(config(&["user.id", "post.id"], vec![]));

    let data = doc(r#"{"user": {"id": "u1"}, "post": {"id": "p1"}}"#);
    let key = parser.generate_key(&data).unwrap();
    assert_eq!(key, "u1_p1");
}

#[test]
fn json_parser_test_generate_key_missing_field() {
    let parser = JsonParser::<String, String>::new(config(&["id"], vec![]));

    let data = doc(r#"{"name": "Alice"}"#);
    let result = parser.generate_key(&data);
    assert!(result.is_err());
    match result {
        Err(ParserError::ParseFailed(m)) => assert_eq!(m, "key field 'id' not found in JSON"),
        _ => panic!("expected a missing field"),
    }
}

#[test]
fn json_parser_test_evaluate_condition() {
    let parser = JsonParser::<String, String>::new(config(&[], vec![]));

    let data = doc(r#"{"status": "active", "count": 42}"#);

    let condition = cond("status", string("active"));
    assert!(parser.evaluate_condition(&data, &condition));

    let condition = cond("status", string("inactive"));
    assert!(!parser.evaluate_condition(&data, &condition));
}

#[test]
fn json_parser_test_evaluate_rule_and() {
    let parser = JsonParser::<String, String>::new(config(&[], vec![]));

    let data = doc(r#"{"status": "active", "count": 42}"#);

    let rule = ChangeTypeRule {
        conditions: vec![cond("status", string("active")), cond("count", JsonValue::Int(42))],
        logic: "AND".to_string(),
        change_type: ChangeType::Update,
    };

    assert!(parser.evaluate_rule(&data, &rule));
}

#[test]
fn json_parser_test_evaluate_rule_or() {
    let parser = JsonParser::<String, String>::new(config(&[], vec![]));

    let data = doc(r#"{"status": "active", "count": 42}"#);

    let rule = ChangeTypeRule {
        conditions: vec![cond("status", string("inactive")), cond("count", JsonValue::Int(42))],
        logic: "OR".to_string(),
        change_type: ChangeType::Update,
    };

    assert!(parser.evaluate_rule(&data, &rule));
}

#[test]
fn json_parser_test_determine_change_type() {
    let rules = vec![ChangeTypeRule {
        conditions: vec![cond("status", string("deleted"))],
        logic: "AND".to_string(),
        change_type: ChangeType::Delete,
    }];
    let parser = JsonParser::<String, String>::new(config(&[], rules));

    let data = doc(r#"{"status": "deleted", "count": 42}"#);
    let ct = parser.determine_change_type(&data);
    assert_eq!(ct, ChangeType::Delete);
}

#[test]
fn json_parser_test_parse_basic() {
    let parser = JsonParser::<String, serde_json::Value>::new(config(&["id"], vec![]));

    let json = r#"{"id":"user123","name":"Alice"}"#;
    let (ct, key, value) = parser.parse(json.as_bytes()).unwrap();

    assert_eq!(ct, ChangeType::Add);
    assert_eq!(key, "user123");
    assert_eq!(value, serde_json::from_str::<serde_json::Value>(r#"{"id":"user123","name":"Alice"}"#).unwrap());
}

#[test]
fn json_parser_test_parse_with_change_type_rule() {
    let rules = vec![ChangeTypeRule {
        conditions: vec![cond("operation", string("delete"))],
        logic: "AND".to_string(),
        change_type: ChangeType::Delete,
    }];
    let parser = JsonParser::<String, serde_json::Value>::new(config(&["id"], rules));

    let json = r#"{"id":"user123","operation":"delete"}"#;
    let (ct, key, _) = parser.parse(json.as_bytes()).unwrap();

    assert_eq!(ct, ChangeType::Delete);
    assert_eq!(key, "user123");
}

#[test]
fn test_json_parser_config_default() {
    let config = JsonParserConfig::default();
    assert_eq!(config.key_fields, vec!["id"]);
    assert_eq!(config.key_separator, "_");
    assert!(config.change_type_rules.is_empty());
    assert_eq!(default_logic(), "AND");
}

#[derive(Debug, PartialEq)]
struct User {
    id: String,
    name: String,
    age: i32,
}

struct UserVisitor;

impl<'de> Visitor<'de> for UserVisitor {
    type Value = User;

    fn expecting(&self, f: &mut fmt::Formatter) -> fmt::Result {
        f.write_str("a User")
    }

    fn visit_map<A: MapAccess<'de>>(self, mut m: A) -> Result<User, A::Error> {
        let mut id: Option<String> = None;
        let mut name: Option<String> = None;
        let mut age: Option<i32> = None;
        while let Some(k) = m.next_key::<String>()? {
            match k.as_str() {
                "id" => id = Some(m.next_value()?),
                "name" => name = Some(m.next_value()?),
                "age" => age = Some(m.next_value()?),
                _ => {
                    let _: IgnoredAny = m.next_value()?;
                },
            }
        }
        Ok(User {
            id: id.ok_or_else(|| de::Error::missing_field("id"))?,
            name: name.ok_or_else(|| de::Error::missing_field("name"))?,
            age: age.ok_or_else(|| de::Error::missing_field("age"))?,
        })
    }
}

impl<'de> Deserialize<'de> for User {
    fn deserialize<D: Deserializer<'de>>(d: D) -> Result<Self, D::Error> {
        d.deserialize_struct("User", &["id", "name", "age"], UserVisitor)
    }
}

#[test]
fn test_parse_with_struct_value() {
    let parser = JsonParser::<String, User>::new(config(&["id"], vec![]));

    let json = r#"{"id":"user123","name":"Alice","age":30}"#;
    let (ct, key, value) = parser.parse(json.as_bytes()).unwrap();

    assert_eq!(ct, ChangeType::Add);
    assert_eq!(key, "user123");
    assert_eq!(value, User { id: "user123".to_string(), name: "Alice".to_string(), age: 30 });
}

#[test]
fn json_parser_number_keys_and_rule_logic_case() {
    let rules = vec![ChangeTypeRule {
        conditions: vec![cond("n", string("7")), cond("missing", string("x"))],
        logic: "or".to_string(),
        change_type: ChangeType::Update,
    }];
    let parser = JsonParser::<i64, serde_json::Value>::new(config(&["n", "f"], rules));
    let data = doc(r#"{"n": 7, "f": 1.5, "big": 18446744073709551615, "obj": {"a": [1,2], "b": 1}}"#);
    assert_eq!(parser.generate_key(&data).unwrap(), "7_1.5");
    assert_eq!(parser.determine_change_type(&data), ChangeType::Update);
    let big = JsonParser::<String, String>::new(config(&["big", "obj"], vec![]));
    assert_eq!(big.generate_key(&data).unwrap(), "18446744073709551615_{\"a\":[1,2],\"b\":1}");
    assert!(matches!(parser.parse(br#"{"n": 7, "f": 1.5}"#), Err(ParserError::ParseFailed(_))));
    let empty = JsonParser::<String, String>::new(config(&[], vec![]));
    match empty.generate_key(&data) {
        Err(ParserError::ParseFailed(m)) => assert_eq!(m, "no key fields configured"),
        _ => panic!("expected a refusal"),
    }
    match read_document(b"{oops") {
        Err(ParserError::ParseFailed(m)) => assert!(m.starts_with("failed to parse JSON: ")),
        _ => panic!("expected a refusal"),
    }
}

#[test]
fn json_configured_change_types() {
    assert_eq!(configured_change_type(&JsonValue::Int(3)), ChangeType::Delete);
    assert_eq!(configured_change_type(&JsonValue::Int(1)), ChangeType::Add);
    assert_eq!(configured_change_type(&JsonValue::Int(9)), ChangeType::Unknown);
    assert_eq!(configured_change_type(&string("UPDATE")), ChangeType::Update);
    assert_eq!(configured_change_type(&JsonValue::Bool(true)), ChangeType::Unknown);
    assert_eq!(configured_change_type(&JsonValue::UInt(u64::MAX)), ChangeType::Unknown);
}

#[test]
fn read_document_depth_is_serde_jsons() {
    let deep = format!("{}{}", "[".repeat(100), "]".repeat(100));
    assert!(read_document(deep.as_bytes()).is_ok());
    let too_deep = format!("{}{}", "[".repeat(200), "]".repeat(200));
    match read_document(too_deep.as_bytes()) {
        Err(ParserError::ParseFailed(m)) => {
            assert!(m.starts_with("failed to parse JSON: "));
            assert_ne!(m, "failed to parse JSON: nested too deeply");
        },
        _ => panic!("expected serde_json to refuse the nesting"),
    }
}
