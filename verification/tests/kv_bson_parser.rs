use rustx::kv::parser::bson_double::{double_to_text, doubles_equal, whole_of_double};
use rustx::kv::parser::bson_parser::{read_bson_document, BsonDocument, BsonParser, BsonParserConfig, BsonValue};
use rustx::kv::parser::core_types::{ChangeType, ParserError};
use rustx::kv::parser::json_parser::{ChangeTypeRule, Condition, JsonValue};

fn config(fields: &[&str], rules: Vec<ChangeTypeRule>) -> BsonParserConfig {
    BsonParserConfig {
        key_fields: fields.iter().map(|s| s.to_string()).collect(),
        key_separator: "_".to_string(),
        change_type_rules: rules,
    }
}

fn model(d: &bson::Document) -> BsonDocument {
    let bytes = bson::to_vec(d).unwrap();
    read_bson_document(&bytes).unwrap()
}

fn cond(field: &str, value: JsonValue) -> Condition {
    Condition { field: field.to_string(), value }
}

fn string(s: &str) -> JsonValue {
    JsonValue::Str(s.to_string())
}

fn status_and_count() -> BsonDocument {
    let mut d = bson::Document::new();
    d.insert("status", "active");
    d.insert("count", 42);
    model(&d)
}

fn double_text(x: f64) -> String {
    double_to_text(x.to_bits(), &x.to_string())
}

#[test]
fn bson_parser_test_generate_key_single_field() {
    let parser = BsonParser::<String, bson::Document>::new(config(&["id"], vec![]));
    let mut d = bson::Document::new();
    d.insert("id", "user123");
    d.insert("name", "Alice");
    let key = parser.generate_key(&model(&d)).unwrap();
    assert_eq!(key, "user123");
}

#[test]
fn test_generate_key_nested_fields() {
    let parser = BsonParser::<String, bson::Document>::new(config(&["user.id", "post.id"], vec![]));
    let mut user = bson::Document::new();
    user.insert("id", "u1");
    let mut post = bson::Document::new();
    post.insert("id", "p1");
    let mut d = bson::Document::new();
    d.insert("user", user);
    d.insert("post", post);
    let key = parser.generate_key(&model(&d)).unwrap();
    assert_eq!(key, "u1_p1");
}

#[test]
fn bson_parser_test_generate_key_missing_field() {
    let parser = BsonParser::<String, bson::Document>::new(config(&["id"], vec![]));
    let mut d = bson::Document::new();
    d.insert("name", "Alice");
    let result = parser.generate_key(&model(&d));
    assert!(result.is_err());
    match result {
        Err(ParserError::ParseFailed(m)) => assert_eq!(m, "key field 'id' not found in BSON"),
        _ => panic!("expected a missing field"),
    }
}

#[test]
fn bson_parser_test_evaluate_condition() {
    let parser = BsonParser::<String, bson::Document>::new(config(&[], vec![]));
    let d = status_and_count();
    assert!(parser.evaluate_condition(&d, &cond("status", string("active"))));
    assert!(!parser.evaluate_condition(&d, &cond("status", string("inactive"))));
}

#[test]
fn bson_parser_test_evaluate_rule_and() {
    let parser = BsonParser::<String, bson::Document>::new(config(&[], vec![]));
    let d = status_and_count();
    let rule = ChangeTypeRule {
        conditions: vec![cond("status", string("active")), cond("count", JsonValue::Int(42))],
        logic: "AND".to_string(),
        change_type: ChangeType::Update,
    };
    assert!(parser.evaluate_rule(&d, &rule));
}

#[test]
fn bson_parser_test_evaluate_rule_or() {
    let parser = BsonParser::<String, bson::Document>::new(config(&[], vec![]));
    let d = status_and_count();
    let rule = ChangeTypeRule {
        conditions: vec![cond("status", string("inactive")), cond("count", JsonValue::Int(42))],
        logic: "OR".to_string(),
        change_type: ChangeType::Update,
    };
    assert!(parser.evaluate_rule(&d, &rule));
}

#[test]
fn bson_parser_test_determine_change_type() {
    let rules = vec![ChangeTypeRule {
        conditions: vec![cond("status", string("deleted"))],
        logic: "AND".to_string(),
        change_type: ChangeType::Delete,
    }];
    let parser = BsonParser::<String, bson::Document>::new(config(&[], rules));
    let mut d = bson::Document::new();
    d.insert("status", "deleted");
    d.insert("count", 42);
    assert_eq!(parser.determine_change_type(&model(&d)), ChangeType::Delete);
}

#[test]
fn bson_parser_test_parse_basic() {
    let parser = BsonParser::<String, bson::Document>::new(config(&["id"], vec![]));
    let mut d = bson::Document::new();
    d.insert("id", "user123");
    d.insert("name", "Alice");
    let bytes = bson::to_vec(&d).unwrap();
    let (ct, key, value) = parser.parse(&bytes).unwrap();
    assert_eq!(ct, ChangeType::Add);
    assert_eq!(key, "user123");
    assert_eq!(value.get_str("name").unwrap(), "Alice");
}

#[test]
fn bson_parser_test_parse_with_change_type_rule() {
    let rules = vec![ChangeTypeRule {
        conditions: vec![cond("operation", string("delete"))],
        logic: "AND".to_string(),
        change_type: ChangeType::Delete,
    }];
    let parser = BsonParser::<String, bson::Document>::new(config(&["id"], rules));
    let mut d = bson::Document::new();
    d.insert("id", "user123");
    d.insert("operation", "delete");
    let bytes = bson::to_vec(&d).unwrap();
    let (ct, key, _) = parser.parse(&bytes).unwrap();
    assert_eq!(ct, ChangeType::Delete);
    assert_eq!(key, "user123");
}

#[test]
fn test_bson_parser_config_default() {
    let config = BsonParserConfig::default();
    assert_eq!(config.key_fields, vec!["id"]);
    assert_eq!(config.key_separator, "_");
    assert!(config.change_type_rules.is_empty());
}

#[test]
fn bson_key_texts_of_numbers_and_other_kinds() {
    let parser = BsonParser::<String, bson::Document>::new(config(&["a", "b", "c", "d", "e", "f"], vec![]));
    let mut d = bson::Document::new();
    d.insert("a", 7i32);
    d.insert("b", -9i64);
    d.insert("c", 42.0f64);
    d.insert("d", 1.5f64);
    d.insert("e", true);
    d.insert("f", bson::Bson::Null);
    let key = parser.generate_key(&model(&d)).unwrap();
    assert_eq!(key, "7_-9_42_1.5_true_null");

    let arrays = BsonParser::<String, bson::Document>::new(config(&["xs"], vec![]));
    let mut d = bson::Document::new();
    d.insert("xs", vec![bson::Bson::Int32(1), bson::Bson::String("a".to_string())]);
    let key = arrays.generate_key(&model(&d)).unwrap();
    assert_eq!(key, "Array([Int32(1), String(\"a\")])");
}

#[test]
fn bson_whole_doubles_are_written_without_fraction() {
    assert_eq!(double_text(42.0), "42");
    assert_eq!(double_text(-3.0), "-3");
    assert_eq!(double_text(1.5), "1.5");
    assert_eq!(double_text(-0.0), "0");
    assert_eq!(double_text(4611686018427387904.0), "4611686018427387904");
    assert_eq!(double_text(9223372036854775808.0), "9223372036854775807");
    assert_eq!(double_text(-9223372036854775808.0), "-9223372036854775808");
    assert_eq!(double_text(1e20), "100000000000000000000");
    assert_eq!(double_text(f64::NAN), "NaN");
    assert_eq!(double_text(f64::INFINITY), "inf");
    assert_eq!(whole_of_double(0.25f64.to_bits()), None);
    assert_eq!(whole_of_double(1024.0f64.to_bits()), Some(1024));
}

#[test]
fn bson_double_equality_follows_ieee() {
    assert!(doubles_equal(0.0f64.to_bits(), (-0.0f64).to_bits()));
    assert!(!doubles_equal(f64::NAN.to_bits(), f64::NAN.to_bits()));
    assert!(doubles_equal(2.5f64.to_bits(), 2.5f64.to_bits()));
    assert!(!doubles_equal(2.5f64.to_bits(), 3.5f64.to_bits()));
}

#[test]
fn bson_conditions_compare_by_value_or_text() {
    let parser = BsonParser::<String, bson::Document>::new(config(&[], vec![]));
    let mut d = bson::Document::new();
    d.insert("small", 5i32);
    d.insert("ratio", 2.0f64);
    d.insert("big", -1i64);
    d.insert("flag", false);
    d.insert("nothing", bson::Bson::Null);
    d.insert("tags", vec![bson::Bson::Int64(1), bson::Bson::Int64(2)]);
    let d = model(&d);
    assert!(parser.evaluate_condition(&d, &cond("small", JsonValue::Int(5))));
    assert!(parser.evaluate_condition(&d, &cond("small", string("5"))));
    assert!(parser.evaluate_condition(&d, &cond("ratio", JsonValue::Int(2))));
    let two = 2.0f64;
    assert!(parser.evaluate_condition(&d, &cond("ratio", JsonValue::Float(two.to_bits(), two.to_string()))));
    assert!(parser.evaluate_condition(&d, &cond("big", JsonValue::UInt(u64::MAX))));
    assert!(parser.evaluate_condition(&d, &cond("flag", JsonValue::Bool(false))));
    assert!(!parser.evaluate_condition(&d, &cond("flag", JsonValue::Bool(true))));
    assert!(parser.evaluate_condition(&d, &cond("nothing", JsonValue::Null)));
    assert!(!parser.evaluate_condition(&d, &cond("missing", JsonValue::Null)));
    let items = vec![JsonValue::Int(1), JsonValue::Int(2)];
    assert!(parser.evaluate_condition(&d, &cond("tags", JsonValue::Array(items, "[1,2]".to_string()))));
    let items = vec![JsonValue::Int(2), JsonValue::Int(1)];
    assert!(!parser.evaluate_condition(&d, &cond("tags", JsonValue::Array(items, "[2,1]".to_string()))));
}

#[test]
fn bson_paths_stop_at_values_that_are_not_documents() {
    let parser = BsonParser::<String, bson::Document>::new(config(&["user.id.x"], vec![]));
    let mut user = bson::Document::new();
    user.insert("id", "u1");
    let mut d = bson::Document::new();
    d.insert("user", user);
    let d = model(&d);
    match parser.generate_key(&d) {
        Err(ParserError::ParseFailed(m)) => assert_eq!(m, "key field 'user.id.x' not found in BSON"),
        _ => panic!("expected a missing field"),
    }
    let empty_path = BsonParser::<String, bson::Document>::new(config(&[""], vec![]));
    assert!(empty_path.generate_key(&d).is_err());
    let none = BsonParser::<String, bson::Document>::new(config(&[], vec![]));
    match none.generate_key(&d) {
        Err(ParserError::ParseFailed(m)) => assert_eq!(m, "no key fields configured"),
        _ => panic!("expected a refusal"),
    }
    match d.entries[0].1 {
        BsonValue::Document(ref es, _, _) => assert_eq!(es[0].0, "id"),
        _ => panic!("expected a document"),
    }
}

#[test]
fn bson_rules_logic_and_failures() {
    let rules = vec![
        ChangeTypeRule { conditions: vec![], logic: "AND".to_string(), change_type: ChangeType::Delete },
        ChangeTypeRule {
            conditions: vec![cond("status", string("x")), cond("count", JsonValue::Int(42))],
            logic: "or".to_string(),
            change_type: ChangeType::Update,
        },
    ];
    let parser = BsonParser::<i64, bson::Document>::new(config(&["count"], rules));
    let d = status_and_count();
    assert_eq!(parser.determine_change_type(&d), ChangeType::Update);
    let mut doc = bson::Document::new();
    doc.insert("count", "forty");
    let bytes = bson::to_vec(&doc).unwrap();
    match parser.parse(&bytes) {
        Err(ParserError::ParseFailed(m)) => assert!(m.starts_with("failed to parse key: ")),
        _ => panic!("expected a refusal"),
    }
    match parser.parse(b"\x05\x00") {
        Err(ParserError::ParseFailed(m)) => assert!(m.starts_with("failed to parse BSON: ")),
        _ => panic!("expected a refusal"),
    }
    let mut doc = bson::Document::new();
    doc.insert("count", 42i64);
    let bytes = bson::to_vec(&doc).unwrap();
    let (ct, key, _) = parser.parse(&bytes).unwrap();
    assert_eq!(ct, ChangeType::Update);
    assert_eq!(key, 42);
}
