//! Records held as BSON documents: the key is made of chosen fields, and the same
//! rules as for JSON decide the change kind.

use vstd::prelude::*;

use crate::text::{i64_to_decimal, push_str, signed_decimal, str_equal};
use super::bson_double::{double_equal, double_text, double_to_text, doubles_equal};
use super::bson_cursor::{bson_child, bson_node, bson_node_at, bson_parses, bson_root, bson_value, BsonCursor, BsonNode};
use super::core_types::{ChangeType, ParserError};
use super::json_parser::{join, normalize_rules, split_chars, split_on, ChangeTypeRule, Condition, JsonValue};
use super::parse_value::ParseValue;

verus! {

/// A BSON value as the parser reads it.
#[derive(Debug)]
pub enum BsonValue {
    Null,
    Boolean(bool),
    Int32(i32),
    Int64(i64),
    /// The IEEE-754 bits of the double, and the text Rust writes for it.
    Double(u64, String),
    Str(String),
    /// The items, the value's `Debug` text, and the value itself.
    Array(Vec<BsonValue>, String, bson::Bson),
    /// The members in the document's order, the value's `Debug` text, and the value
    /// itself.
    Document(Vec<(String, BsonValue)>, String, bson::Bson),
    /// A value of any other kind (an object id, a date, binary data ...): its `Debug`
    /// text and the value itself.
    Other(String, bson::Bson),
}

/// A BSON document as the parser reads it: its members in order.
#[derive(Debug)]
pub struct BsonDocument {
    pub entries: Vec<(String, BsonValue)>,
}

/// The text of a value as keys and comparisons use it: numbers in decimal (a double
/// without its fraction when it is a whole number that fits an `i64`), strings as
/// they are, `true`, `false`, `null`, and anything else in its `Debug` form.
pub open spec fn bson_text(v: BsonValue) -> Seq<char> {
    match v {
        BsonValue::Null => "null"@,
        BsonValue::Boolean(b) => if b {
            "true"@
        } else {
            "false"@
        },
        BsonValue::Int32(n) => signed_decimal(n as int),
        BsonValue::Int64(n) => signed_decimal(n as int),
        BsonValue::Double(bits, t) => double_text(bits, t@),
        BsonValue::Str(s) => s@,
        BsonValue::Array(_, t, _) => t@,
        BsonValue::Document(_, t, _) => t@,
        BsonValue::Other(t, _) => t@,
    }
}

impl BsonValue {
    /// The text of the value as keys and comparisons use it.
    pub fn text(&self) -> (s: String)
        ensures
            s@ == bson_text(*self),
    {
        match self {
            BsonValue::Null => "null".to_owned(),
            BsonValue::Boolean(b) => if *b {
                "true".to_owned()
            } else {
                "false".to_owned()
            },
            BsonValue::Int32(n) => i64_to_decimal(*n as i64),
            BsonValue::Int64(n) => i64_to_decimal(*n),
            BsonValue::Double(bits, t) => double_to_text(*bits, t),
            BsonValue::Str(s) => s.clone(),
            BsonValue::Array(_, t, _) => t.clone(),
            BsonValue::Document(_, t, _) => t.clone(),
            BsonValue::Other(t, _) => t.clone(),
        }
    }
}

/// The value of the member named `key` (the first, should there be several).
pub open spec fn doc_member(entries: Seq<(String, BsonValue)>, key: Seq<char>) -> Option<BsonValue>
    decreases entries.len(),
{
    if entries.len() == 0 {
        None
    } else if entries[0].0@ == key {
        Some(entries[0].1)
    } else {
        doc_member(entries.drop_first(), key)
    }
}

/// The value reached from a document by the member names `parts`: every name but the
/// last must lead to a document.
pub open spec fn doc_walk(entries: Seq<(String, BsonValue)>, parts: Seq<Seq<char>>) -> Option<BsonValue>
    decreases parts.len(),
{
    if parts.len() == 0 {
        None
    } else {
        match doc_member(entries, parts[0]) {
            None => None,
            Some(v) => if parts.len() == 1 {
                Some(v)
            } else {
                match v {
                    BsonValue::Document(es, _, _) => doc_walk(es@, parts.drop_first()),
                    _ => None,
                }
            },
        }
    }
}

/// The value at a dotted path such as "user.id"; an empty path names nothing.
pub open spec fn bson_field_value(entries: Seq<(String, BsonValue)>, path: Seq<char>) -> Option<BsonValue> {
    if path.len() == 0 {
        None
    } else {
        doc_walk(entries, split_on(path, '.'))
    }
}

/// The value of the member named `key`.
fn find_entry<'a>(entries: &'a Vec<(String, BsonValue)>, key: &str) -> (r: Option<&'a BsonValue>)
    ensures
        match doc_member(entries@, key@) {
            Some(v) => r == Some(&v),
            None => r is None,
        },
{
    let mut i: usize = 0;
    proof {
        assert(entries@.skip(0) =~= entries@);
    }
    while i < entries.len()
        invariant
            i <= entries@.len(),
            doc_member(entries@, key@) == doc_member(entries@.skip(i as int), key@),
        decreases entries@.len() - i,
    {
        proof {
            assert(entries@.skip(i as int)[0] == entries@[i as int]);
            assert(entries@.skip(i as int).drop_first() =~= entries@.skip(i + 1));
        }
        if str_equal(entries[i].0.as_str(), key) {
            return Some(&entries[i].1);
        }
        i += 1;
    }
    None
}

/// The value at a dotted path such as "user.id".
pub fn get_bson_field_value<'a>(doc: &'a BsonDocument, path: &str) -> (r: Option<&'a BsonValue>)
    ensures
        match bson_field_value(doc.entries@, path@) {
            Some(v) => r == Some(&v),
            None => r is None,
        },
{
    if path.is_empty() {
        return None;
    }
    let parts = split_chars(path, '.');
    let ghost ps = parts@.map_values(|p: String| p@);
    let mut current: &Vec<(String, BsonValue)> = &doc.entries;
    let mut i: usize = 0;
    proof {
        assert(ps.skip(0) =~= ps);
    }
    while i < parts.len()
        invariant
            i <= parts@.len(),
            ps == parts@.map_values(|p: String| p@),
            ps == split_on(path@, '.'),
            path@.len() > 0,
            doc_walk(doc.entries@, ps) == doc_walk(current@, ps.skip(i as int)),
        decreases parts@.len() - i,
    {
        proof {
            assert(ps.skip(i as int)[0] == parts@[i as int]@);
            assert(ps.skip(i as int).drop_first() =~= ps.skip(i + 1));
        }
        match find_entry(current, parts[i].as_str()) {
            None => return None,
            Some(v) => {
                if i + 1 == parts.len() {
                    return Some(v);
                }
                match v {
                    BsonValue::Document(es, _, _) => {
                        current = es;
                    },
                    _ => return None,
                }
            },
        }
        i += 1;
    }
    proof {
        assert(ps.skip(i as int) =~= Seq::<Seq<char>>::empty());
    }
    None
}

/// Configuration of a `BsonParser`.
#[derive(Debug)]
pub struct BsonParserConfig {
    /// The dotted paths of the fields the key is made of, in order.
    pub key_fields: Vec<String>,
    /// The text between the key's parts.
    pub key_separator: String,
    /// The rules, tried in order.
    pub change_type_rules: Vec<ChangeTypeRule>,
}

impl Default for BsonParserConfig {
    fn default() -> (c: Self)
        ensures
            c.key_fields@.len() == 1,
            c.key_fields@[0]@ == "id"@,
            c.key_separator@ == "_"@,
            c.change_type_rules@.len() == 0,
    {
        let mut key_fields: Vec<String> = Vec::new();
        key_fields.push("id".to_owned());
        BsonParserConfig { key_fields, key_separator: "_".to_owned(), change_type_rules: Vec::new() }
    }
}

/// The texts of the key's fields, or the message of the first field that is missing.
pub open spec fn bson_key_texts(entries: Seq<(String, BsonValue)>, fields: Seq<String>) -> Result<Seq<Seq<char>>, Seq<char>>
    decreases fields.len(),
{
    if fields.len() == 0 {
        Ok(Seq::empty())
    } else {
        match bson_key_texts(entries, fields.drop_last()) {
            Err(e) => Err(e),
            Ok(ts) => match bson_field_value(entries, fields.last()@) {
                None => Err("key field '"@ + fields.last()@ + "' not found in BSON"@),
                Some(v) => Ok(ts.push(bson_text(v))),
            },
        }
    }
}

/// The key of a document: the fields' texts joined by the separator.
pub open spec fn bson_key(entries: Seq<(String, BsonValue)>, fields: Seq<String>, sep: Seq<char>) -> Result<Seq<char>, Seq<char>> {
    if fields.len() == 0 {
        Err("no key fields configured"@)
    } else {
        match bson_key_texts(entries, fields) {
            Ok(ts) => Ok(join(ts, sep)),
            Err(e) => Err(e),
        }
    }
}

/// Once a key field is missing, the later fields change nothing.
proof fn lemma_bson_key_texts_stop(entries: Seq<(String, BsonValue)>, fields: Seq<String>, j: int)
    requires
        0 <= j <= fields.len(),
        bson_key_texts(entries, fields.take(j)) is Err,
    ensures
        bson_key_texts(entries, fields) == bson_key_texts(entries, fields.take(j)),
    decreases fields.len(),
{
    if j == fields.len() {
        assert(fields.take(j) =~= fields);
    } else {
        assert(fields.drop_last().take(j) =~= fields.take(j));
        lemma_bson_key_texts_stop(entries, fields.drop_last(), j);
    }
}

/// Whether a condition's expected value is neither an array nor an object.
pub open spec fn is_scalar(v: JsonValue) -> bool {
    !(v is Array) && !(v is Object)
}

/// `u as i64`: the number itself below 2^63, else the number less 2^64.
pub open spec fn wrapped_i64(u: u64) -> int {
    if u <= 0x7fff_ffff_ffff_ffff {
        u as int
    } else {
        u - 0x1_0000_0000_0000_0000
    }
}

/// `u as i64`.
fn wrap_to_i64(u: u64) -> (n: i64)
    ensures
        n == wrapped_i64(u),
{
    if u <= 0x7fff_ffff_ffff_ffff {
        u as i64
    } else {
        let below: u64 = 0xffff_ffff_ffff_ffff - u;
        -(below as i64) - 1
    }
}

/// Whether the value equals the expected value turned into BSON (`Null`, `Boolean`,
/// `Int64` for whole numbers, `Double` for other numbers, `String`), by BSON's `==`.
pub open spec fn equals_expected(a: BsonValue, e: JsonValue) -> bool {
    match e {
        JsonValue::Null => a is Null,
        JsonValue::Bool(y) => a matches BsonValue::Boolean(x) && x == y,
        JsonValue::Int(y) => a matches BsonValue::Int64(x) && x == y,
        JsonValue::UInt(y) => a matches BsonValue::Int64(x) && x == wrapped_i64(y),
        JsonValue::Float(y, _) => a matches BsonValue::Double(x, _) && double_equal(x, y),
        JsonValue::Str(y) => a matches BsonValue::Str(x) && x@ == y@,
        _ => false,
    }
}

/// The text of the expected value turned into BSON.
pub open spec fn expected_text(e: JsonValue) -> Seq<char> {
    match e {
        JsonValue::Null => "null"@,
        JsonValue::Bool(b) => if b {
            "true"@
        } else {
            "false"@
        },
        JsonValue::Int(n) => signed_decimal(n as int),
        JsonValue::UInt(u) => signed_decimal(wrapped_i64(u)),
        JsonValue::Float(bits, t) => double_text(bits, t@),
        JsonValue::Str(s) => s@,
        _ => Seq::empty(),
    }
}

/// Whether the document meets a condition whose value is not an array or an object:
/// the field is there, and it equals the value, or the two have the same text.
pub open spec fn bson_condition_holds(entries: Seq<(String, BsonValue)>, c: Condition) -> bool {
    match bson_field_value(entries, c.field@) {
        Some(a) => equals_expected(a, c.value) || bson_text(a) == expected_text(c.value),
        None => false,
    }
}

/// Whether every condition of the rule compares with a value that is not an array or
/// an object.
pub open spec fn scalar_rule(rule: ChangeTypeRule) -> bool {
    forall|i: int| 0 <= i < rule.conditions@.len() ==> is_scalar(#[trigger] rule.conditions@[i].value)
}

/// Whether a rule matches: it has conditions, and any of them holds with "OR", all
/// of them otherwise.
pub open spec fn bson_rule_matches(entries: Seq<(String, BsonValue)>, rule: ChangeTypeRule) -> bool {
    let cs = rule.conditions@;
    if cs.len() == 0 {
        false
    } else if rule.logic@ == "OR"@ {
        exists|i: int| 0 <= i < cs.len() && bson_condition_holds(entries, #[trigger] cs[i])
    } else {
        forall|i: int| 0 <= i < cs.len() ==> bson_condition_holds(entries, #[trigger] cs[i])
    }
}

/// The change kind of the first rule that matches, or add.
pub open spec fn bson_change_type_of(entries: Seq<(String, BsonValue)>, rules: Seq<ChangeTypeRule>) -> ChangeType
    decreases rules.len(),
{
    if rules.len() == 0 {
        ChangeType::Add
    } else if bson_rule_matches(entries, rules[0]) {
        rules[0].change_type
    } else {
        bson_change_type_of(entries, rules.drop_first())
    }
}

/// Whether rule `i` is the first of `rules` that the document's members match.
pub open spec fn bson_first_match_at(entries: Seq<(String, BsonValue)>, rules: Seq<ChangeTypeRule>, i: int) -> bool {
    &&& 0 <= i < rules.len()
    &&& bson_rule_matches(entries, rules[i])
    &&& forall|j: int| 0 <= j < i ==> !bson_rule_matches(entries, #[trigger] rules[j])
}

/// The first rule the document matches decides the change kind, whatever the rules
/// after it say.
pub proof fn law_bson_first_matching_rule_decides(entries: Seq<(String, BsonValue)>, rules: Seq<ChangeTypeRule>, i: int)
    requires
        bson_first_match_at(entries, rules, i),
    ensures
        bson_change_type_of(entries, rules) == rules[i].change_type,
    decreases i,
{
    if i > 0 {
        assert(!bson_rule_matches(entries, rules[0]));
        let rest = rules.drop_first();
        assert forall|j: int| 0 <= j < i - 1 implies !bson_rule_matches(entries, #[trigger] rest[j]) by {
            assert(rest[j] == rules[j + 1]);
        }
        assert(rest[i - 1] == rules[i]);
        law_bson_first_matching_rule_decides(entries, rest, i - 1);
    }
}

/// A document that matches no rule is an addition.
pub proof fn law_bson_unmatched_document_is_added(entries: Seq<(String, BsonValue)>, rules: Seq<ChangeTypeRule>)
    requires
        forall|j: int| 0 <= j < rules.len() ==> !bson_rule_matches(entries, #[trigger] rules[j]),
    ensures
        bson_change_type_of(entries, rules) == ChangeType::Add,
    decreases rules.len(),
{
    if rules.len() > 0 {
        let rest = rules.drop_first();
        assert forall|j: int| 0 <= j < rest.len() implies !bson_rule_matches(entries, #[trigger] rest[j]) by {
            assert(rest[j] == rules[j + 1]);
        }
        assert(!bson_rule_matches(entries, rules[0]));
        law_bson_unmatched_document_is_added(entries, rest);
    }
}

/// Whether every rule compares only with values that are not arrays or objects.
pub open spec fn scalar_rules(rules: Seq<ChangeTypeRule>) -> bool {
    forall|i: int| 0 <= i < rules.len() ==> scalar_rule(#[trigger] rules[i])
}

/// `bson::Bson`'s `Debug` text.
#[verifier::external_body]
fn bson_debug(v: &bson::Bson) -> (r: String) {
    format!("{:?}", v)
}

/// `==` of `bson::Bson`.
#[verifier::external_body]
fn bson_equal(a: &bson::Bson, b: &bson::Bson) -> (r: bool) {
    a == b
}

/// `bson::Bson::Null`.
#[verifier::external_body]
fn bson_null() -> (r: bson::Bson) {
    bson::Bson::Null
}

/// `bson::Bson::Boolean`.
#[verifier::external_body]
fn bson_boolean(b: bool) -> (r: bson::Bson) {
    bson::Bson::Boolean(b)
}

/// `bson::Bson::Int64`.
#[verifier::external_body]
fn bson_int64(n: i64) -> (r: bson::Bson) {
    bson::Bson::Int64(n)
}

/// `bson::Bson::Double` of the double that `t` spells (`str::parse`), if it spells one.
/// The text comes from a JSON number as the reader writes it, which always spells one.
#[verifier::external_body]
fn bson_double(t: &str) -> (r: Option<bson::Bson>) {
    match t.parse() {
        Ok(x) => Some(bson::Bson::Double(x)),
        Err(_) => None,
    }
}

/// `bson::Bson::String`.
#[verifier::external_body]
fn bson_string(s: String) -> (r: bson::Bson) {
    bson::Bson::String(s)
}

/// `bson::Bson::Array`.
#[verifier::external_body]
fn bson_array(items: Vec<bson::Bson>) -> (r: bson::Bson) {
    bson::Bson::Array(items)
}

/// `bson::Document::new`.
#[verifier::external_body]
fn document_new() -> (r: bson::Document) {
    bson::Document::new()
}

/// `bson::Document::insert`; the value the key had before is dropped.
#[verifier::external_body]
fn document_insert(d: &mut bson::Document, key: String, v: bson::Bson) {
    d.insert(key, v);
}

/// `bson::Bson::Document`.
#[verifier::external_body]
fn bson_from_document(d: bson::Document) -> (r: bson::Bson) {
    bson::Bson::Document(d)
}

/// `bson::from_slice`; a failure carries the error's text. What the value is rests on
/// `T`'s own deserialization, so nothing is said of it.
#[verifier::external_body]
fn bson_from_slice<T: serde::de::DeserializeOwned>(bytes: &[u8]) -> (r: Result<T, String>) {
    match bson::from_slice(bytes) {
        Ok(v) => Ok(v),
        Err(e) => Err(e.to_string()),
    }
}

/// Whether arrays and documents nest at most `depth` levels in `v`.
pub open spec fn bson_nested_within(v: BsonValue, depth: nat) -> bool
    decreases depth,
{
    match v {
        BsonValue::Array(items, _, _) => depth > 0 && forall|i: int|
            0 <= i < items@.len() ==> bson_nested_within(#[trigger] items@[i], (depth - 1) as nat),
        BsonValue::Document(entries, _, _) => depth > 0 && forall|i: int|
            0 <= i < entries@.len() ==> bson_nested_within(#[trigger] entries@[i].1, (depth - 1) as nat),
        _ => true,
    }
}

/// Whether `d` is the parser's view of the value read from `bytes` at `path`, to the
/// full depth of `d`: each variant as `bson` reads it, the items and members in order,
/// strings, keys and texts character for character. (The copy of the value each
/// array, document and other value carries is not described.)
pub open spec fn bson_fits(bytes: Seq<u8>, path: Seq<usize>, d: BsonValue) -> bool
    decreases d,
{
    match bson_node_at(bytes, path) {
        BsonNode::Null => d is Null,
        BsonNode::Boolean(b) => d == BsonValue::Boolean(b),
        BsonNode::Int32(n) => d == BsonValue::Int32(n),
        BsonNode::Int64(n) => d == BsonValue::Int64(n),
        BsonNode::Double(b, t) => d matches BsonValue::Double(b2, t2) && b2 == b && t2@ == t@,
        BsonNode::Str(s) => d matches BsonValue::Str(s2) && s2@ == s@,
        BsonNode::Array(n, t) => match d {
            BsonValue::Array(items, t2, _) => {
                &&& t2@ == t@
                &&& items@.len() == n
                &&& forall|k: int| 0 <= k < items@.len() ==> bson_fits(bytes, path.push(k as usize), #[trigger] items@[k])
            },
            _ => false,
        },
        BsonNode::Document(keys, t) => match d {
            BsonValue::Document(entries, t2, _) => {
                &&& t2@ == t@
                &&& bson_members_fit(bytes, path, keys@, entries@)
            },
            _ => false,
        },
        BsonNode::Other(t) => d matches BsonValue::Other(t2, _) && t2@ == t@,
    }
}

/// Whether `entries` are the members of the document read from `bytes` at `path`,
/// whose keys are `keys`.
pub open spec fn bson_members_fit(bytes: Seq<u8>, path: Seq<usize>, keys: Seq<String>, entries: Seq<(String, BsonValue)>) -> bool
    decreases entries,
{
    &&& entries.len() == keys.len()
    &&& forall|k: int| 0 <= k < entries.len() ==> (#[trigger] entries[k]).0@ == keys[k]@ && bson_fits(
        bytes,
        path.push(k as usize),
        entries[k].1,
    )
}

/// The parser's view of the value at `c`, if it nests at most `depth` levels; when it
/// nests deeper, no view of it does.
fn bson_doc(c: &BsonCursor, depth: usize) -> (r: Option<BsonValue>)
    ensures
        r matches Some(d) ==> bson_fits(c.spec_bytes(), c.spec_path(), d) && bson_nested_within(d, depth as nat),
        r is None ==> forall|d: BsonValue| #[trigger] bson_fits(c.spec_bytes(), c.spec_path(), d) ==> !bson_nested_within(d, depth as nat),
    decreases depth, 0usize,
{
    let ghost bytes = c.spec_bytes();
    let ghost path = c.spec_path();
    match bson_node(c) {
        BsonNode::Null => Some(BsonValue::Null),
        BsonNode::Boolean(b) => Some(BsonValue::Boolean(b)),
        BsonNode::Int32(n) => Some(BsonValue::Int32(n)),
        BsonNode::Int64(n) => Some(BsonValue::Int64(n)),
        BsonNode::Double(b, t) => Some(BsonValue::Double(b, t)),
        BsonNode::Str(s) => Some(BsonValue::Str(s)),
        BsonNode::Other(t) => Some(BsonValue::Other(t, bson_value(c))),
        BsonNode::Array(n, t) => {
            if depth == 0 {
                return None;
            }
            let mut out: Vec<BsonValue> = Vec::new();
            let mut k: usize = 0;
            while k < n
                invariant
                    k <= n,
                    depth > 0,
                    bytes == c.spec_bytes(),
                    path == c.spec_path(),
                    bson_node_at(bytes, path) == BsonNode::Array(n, t),
                    out@.len() == k,
                    forall|j: int| 0 <= j < k ==> bson_fits(bytes, path.push(j as usize), #[trigger] out@[j])
                        && bson_nested_within(out@[j], (depth - 1) as nat),
                decreases n - k,
            {
                let child = bson_child(c, k);
                match bson_doc(&child, depth - 1) {
                    Some(x) => out.push(x),
                    None => {
                        proof {
                            assert forall|d: BsonValue| #[trigger] bson_fits(bytes, path, d) implies !bson_nested_within(d, depth as nat) by {
                                if let BsonValue::Array(items, _, _) = d {
                                    assert(bson_fits(bytes, path.push(k), items@[k as int]));
                                }
                            }
                        }
                        return None;
                    },
                }
                k += 1;
            }
            let d = BsonValue::Array(out, t, bson_value(c));
            proof {
                assert(bson_fits(bytes, path, d));
            }
            Some(d)
        },
        BsonNode::Document(keys, t) => {
            if depth == 0 {
                return None;
            }
            match bson_members(c, &keys, depth - 1) {
                Some(entries) => {
                    let d = BsonValue::Document(entries, t, bson_value(c));
                    proof {
                        assert(bson_fits(bytes, path, d));
                    }
                    Some(d)
                },
                None => {
                    proof {
                        assert forall|d: BsonValue| #[trigger] bson_fits(bytes, path, d) implies !bson_nested_within(d, depth as nat) by {
                            if let BsonValue::Document(entries, _, _) = d {
                                assert(bson_members_fit(bytes, path, keys@, entries@));
                                if bson_nested_within(d, depth as nat) {
                                    assert forall|j: int| 0 <= j < entries@.len() implies bson_nested_within(
                                        #[trigger] entries@[j].1,
                                        (depth - 1) as nat,
                                    ) by {}
                                }
                            }
                        }
                    }
                    None
                },
            }
        },
    }
}

/// The parser's view of the members of the document at `c`, whose keys are `keys`, if
/// each nests at most `depth` levels; when one nests deeper, no view of them does.
fn bson_members(c: &BsonCursor, keys: &Vec<String>, depth: usize) -> (r: Option<Vec<(String, BsonValue)>>)
    requires
        bson_node_at(c.spec_bytes(), c.spec_path()) matches BsonNode::Document(ks, _) && ks@ == keys@,
    ensures
        r matches Some(es) ==> bson_members_fit(c.spec_bytes(), c.spec_path(), keys@, es@)
            && forall|j: int| 0 <= j < es@.len() ==> bson_nested_within(#[trigger] es@[j].1, depth as nat),
        r is None ==> forall|es: Seq<(String, BsonValue)>| #[trigger] bson_members_fit(c.spec_bytes(), c.spec_path(), keys@, es)
            ==> exists|j: int| 0 <= j < es.len() && !bson_nested_within(#[trigger] es[j].1, depth as nat),
    decreases depth, 1usize,
{
    let ghost bytes = c.spec_bytes();
    let ghost path = c.spec_path();
    let mut out: Vec<(String, BsonValue)> = Vec::new();
    let mut k: usize = 0;
    while k < keys.len()
        invariant
            k <= keys@.len(),
            bytes == c.spec_bytes(),
            path == c.spec_path(),
            bson_node_at(bytes, path) matches BsonNode::Document(ks, _) && ks@ == keys@,
            out@.len() == k,
            forall|j: int| 0 <= j < k ==> (#[trigger] out@[j]).0@ == keys@[j]@ && bson_fits(bytes, path.push(j as usize), out@[j].1)
                && bson_nested_within(out@[j].1, depth as nat),
        decreases keys@.len() - k,
    {
        let child = bson_child(c, k);
        match bson_doc(&child, depth) {
            Some(x) => out.push((keys[k].clone(), x)),
            None => {
                proof {
                    assert forall|es: Seq<(String, BsonValue)>| #[trigger] bson_members_fit(bytes, path, keys@, es) implies exists|j: int|
                        0 <= j < es.len() && !bson_nested_within(#[trigger] es[j].1, depth as nat) by {
                        assert(bson_fits(bytes, path.push(k), es[k as int].1));
                        assert(!bson_nested_within(es[k as int].1, depth as nat));
                    }
                }
                return None;
            },
        }
        k += 1;
    }
    proof {
        assert(bson_members_fit(bytes, path, keys@, out@));
    }
    Some(out)
}

/// The message of a document nested deeper than the parser reads.
pub open spec fn too_deep_bson_message() -> Seq<char> {
    "failed to parse BSON: nested too deeply"@
}

/// Whether `d` is the parser's view of the document the BSON bytes hold, its members
/// nesting no deeper than the number of bytes.
pub open spec fn bson_document_fits(bytes: Seq<u8>, d: BsonDocument) -> bool {
    &&& bson_node_at(bytes, Seq::empty()) matches BsonNode::Document(keys, _) && bson_members_fit(
        bytes,
        Seq::empty(),
        keys@,
        d.entries@,
    )
    &&& forall|k: int| 0 <= k < d.entries@.len() ==> bson_nested_within(#[trigger] d.entries@[k].1, bytes.len())
}

/// The document the BSON bytes hold, or why they hold none: bytes that are no BSON
/// document give `bson`'s error; a document gives the parser's view of its members,
/// unless they nest deeper than the number of bytes, which no document read from those
/// bytes reaches.
pub fn read_bson_document(buf: &[u8]) -> (r: Result<BsonDocument, ParserError>)
    ensures
        !bson_parses(buf@) ==> (r matches Err(ParserError::ParseFailed(m))
            && exists|t: Seq<char>| m@ == #[trigger] ("failed to parse BSON: "@ + t)),
        bson_parses(buf@) ==> match r {
            Ok(d) => bson_document_fits(buf@, d),
            Err(e) => (e matches ParserError::ParseFailed(m) && m@ == too_deep_bson_message())
                && forall|d: BsonDocument| !#[trigger] bson_document_fits(buf@, d),
        },
{
    let root = match bson_root(buf) {
        Ok(c) => c,
        Err(t) => {
            let mut m = "failed to parse BSON: ".to_owned();
            push_str(&mut m, t.as_str());
            return Err(ParserError::ParseFailed(m));
        },
    };
    let keys = match bson_node(&root) {
        BsonNode::Document(keys, _) => keys,
        _ => Vec::new(),
    };
    match bson_members(&root, &keys, buf.len()) {
        Some(entries) => Ok(BsonDocument { entries }),
        None => {
            let mut m = "failed to parse BSON: ".to_owned();
            push_str(&mut m, "nested too deeply");
            proof {
                reveal_strlit("failed to parse BSON: ");
                reveal_strlit("nested too deeply");
                reveal_strlit("failed to parse BSON: nested too deeply");
                assert(m@ =~= too_deep_bson_message());
                assert forall|d: BsonDocument| !#[trigger] bson_document_fits(buf@, d) by {
                    if bson_document_fits(buf@, d) {
                        let j = choose|j: int| 0 <= j < d.entries@.len() && !bson_nested_within(#[trigger] d.entries@[j].1, buf@.len());
                    }
                }
            }
            Err(ParserError::ParseFailed(m))
        },
    }
}

/// The expected value turned into BSON: whole numbers become `Int64` (those above
/// `i64::MAX` wrapped), other numbers `Double`, arrays and objects their BSON forms.
fn json_to_bson(v: &JsonValue) -> (r: bson::Bson)
    decreases v,
{
    match v {
        JsonValue::Null => bson_null(),
        JsonValue::Bool(b) => bson_boolean(*b),
        JsonValue::Int(n) => bson_int64(*n),
        JsonValue::UInt(u) => bson_int64(wrap_to_i64(*u)),
        JsonValue::Float(_, t) => match bson_double(t.as_str()) {
            Some(d) => d,
            None => bson_null(),
        },
        JsonValue::Str(s) => bson_string(s.clone()),
        JsonValue::Array(items, _) => {
            let mut out: Vec<bson::Bson> = Vec::new();
            let mut i: usize = 0;
            while i < items.len()
                invariant
                    i <= items@.len(),
                    *v == JsonValue::Array(*items, v->Array_1),
                decreases items@.len() - i,
            {
                proof {
                    assert(decreases_to!(*v => v->Array_0));
                }
                out.push(json_to_bson(&items[i]));
                i += 1;
            }
            bson_array(out)
        },
        JsonValue::Object(entries, _) => {
            let mut d = document_new();
            let mut i: usize = 0;
            while i < entries.len()
                invariant
                    i <= entries@.len(),
                    *v == JsonValue::Object(*entries, v->Object_1),
                decreases entries@.len() - i,
            {
                proof {
                    assert(decreases_to!(*v => v->Object_0));
                }
                let item = json_to_bson(&entries[i].1);
                document_insert(&mut d, entries[i].0.clone(), item);
                i += 1;
            }
            bson_from_document(d)
        },
    }
}

/// Whether the actual value equals the expected one, or has the same text.
fn compare_values(actual: &BsonValue, expected: &JsonValue) -> (b: bool)
    ensures
        is_scalar(*expected) ==> b == (equals_expected(*actual, *expected) || bson_text(*actual) == expected_text(*expected)),
{
    let at = actual.text();
    match expected {
        JsonValue::Null => {
            let same = match actual {
                BsonValue::Null => true,
                _ => false,
            };
            same || str_equal(at.as_str(), "null")
        },
        JsonValue::Bool(y) => {
            let same = match actual {
                BsonValue::Boolean(x) => *x == *y,
                _ => false,
            };
            same || str_equal(at.as_str(), if *y {
                "true"
            } else {
                "false"
            })
        },
        JsonValue::Int(y) => {
            let same = match actual {
                BsonValue::Int64(x) => *x == *y,
                _ => false,
            };
            let et = i64_to_decimal(*y);
            same || str_equal(at.as_str(), et.as_str())
        },
        JsonValue::UInt(y) => {
            let w = wrap_to_i64(*y);
            let same = match actual {
                BsonValue::Int64(x) => *x == w,
                _ => false,
            };
            let et = i64_to_decimal(w);
            same || str_equal(at.as_str(), et.as_str())
        },
        JsonValue::Float(y, t) => {
            let same = match actual {
                BsonValue::Double(x, _) => doubles_equal(*x, *y),
                _ => false,
            };
            let et = double_to_text(*y, t);
            same || str_equal(at.as_str(), et.as_str())
        },
        JsonValue::Str(y) => {
            let same = match actual {
                BsonValue::Str(x) => str_equal(x.as_str(), y.as_str()),
                _ => false,
            };
            same || str_equal(at.as_str(), y.as_str())
        },
        _ => {
            let e = json_to_bson(expected);
            let same = match actual {
                BsonValue::Array(_, _, x) => bson_equal(x, &e),
                BsonValue::Document(_, _, x) => bson_equal(x, &e),
                BsonValue::Other(_, x) => bson_equal(x, &e),
                _ => false,
            };
            let et = bson_debug(&e);
            same || str_equal(at.as_str(), et.as_str())
        },
    }
}

/// Parses BSON documents: the key is made of the configured fields, the change kind
/// comes from the first rule that matches (add when none does), and the value is the
/// document read as `V`.
pub struct BsonParser<K, V> {
    key_fields: Vec<String>,
    key_separator: String,
    change_type_rules: Vec<ChangeTypeRule>,
    _phantom: std::marker::PhantomData<(K, V)>,
}

impl<K, V> BsonParser<K, V> {
    /// A parser with the configuration; the rules' logic is put in upper case.
    pub fn new(config: BsonParserConfig) -> (p: Self)
        ensures
            p.spec_key_fields() == config.key_fields@,
            p.spec_key_separator() == config.key_separator@,
            p.spec_rules().len() == config.change_type_rules@.len(),
            forall|i: int| 0 <= i < config.change_type_rules@.len() ==> {
                &&& (#[trigger] p.spec_rules()[i]).conditions@ == config.change_type_rules@[i].conditions@
                &&& p.spec_rules()[i].logic@ == crate::text::uppercase(config.change_type_rules@[i].logic@)
                &&& p.spec_rules()[i].change_type == config.change_type_rules@[i].change_type
            },
    {
        let rules = normalize_rules(config.change_type_rules);
        BsonParser {
            key_fields: config.key_fields,
            key_separator: config.key_separator,
            change_type_rules: rules,
            _phantom: std::marker::PhantomData,
        }
    }

    pub closed spec fn spec_key_fields(&self) -> Seq<String> {
        self.key_fields@
    }

    pub closed spec fn spec_key_separator(&self) -> Seq<char> {
        self.key_separator@
    }

    pub closed spec fn spec_rules(&self) -> Seq<ChangeTypeRule> {
        self.change_type_rules@
    }

    /// The key of a document: the texts of the key fields joined by the separator;
    /// an error names the first field missing, or says that none is configured.
    pub fn generate_key(&self, doc: &BsonDocument) -> (r: Result<String, ParserError>)
        ensures
            match bson_key(doc.entries@, self.spec_key_fields(), self.spec_key_separator()) {
                Ok(k) => r matches Ok(s) && s@ == k,
                Err(m) => r matches Err(ParserError::ParseFailed(e)) && e@ == m,
            },
    {
        if self.key_fields.len() == 0 {
            return Err(ParserError::ParseFailed("no key fields configured".to_owned()));
        }
        let ghost fields = self.key_fields@;
        let ghost entries = doc.entries@;
        let mut texts: Vec<String> = Vec::new();
        let mut i: usize = 0;
        proof {
            assert(fields.take(0) =~= Seq::<String>::empty());
            assert(texts@.map_values(|t: String| t@) =~= Seq::<Seq<char>>::empty());
        }
        while i < self.key_fields.len()
            invariant
                fields == self.key_fields@,
                entries == doc.entries@,
                i <= fields.len(),
                bson_key_texts(entries, fields.take(i as int)) == Ok::<Seq<Seq<char>>, Seq<char>>(texts@.map_values(|t: String| t@)),
            decreases fields.len() - i,
        {
            proof {
                assert(fields.take(i + 1).drop_last() =~= fields.take(i as int));
                assert(fields.take(i + 1).last() == fields[i as int]);
            }
            let field = &self.key_fields[i];
            match get_bson_field_value(doc, field.as_str()) {
                Some(v) => {
                    let ghost before = texts@.map_values(|t: String| t@);
                    texts.push(v.text());
                    proof {
                        assert(texts@.map_values(|t: String| t@) =~= before.push(bson_text(*v)));
                    }
                },
                None => {
                    let mut m = "key field '".to_owned();
                    push_str(&mut m, field.as_str());
                    push_str(&mut m, "' not found in BSON");
                    proof {
                        let k = fields.take(i + 1);
                        assert(bson_key_texts(entries, k) == Err::<Seq<Seq<char>>, Seq<char>>(m@));
                        lemma_bson_key_texts_stop(entries, fields, i + 1);
                    }
                    return Err(ParserError::ParseFailed(m));
                },
            }
            i += 1;
        }
        proof {
            assert(fields.take(i as int) =~= fields);
        }
        let ghost ts = texts@.map_values(|t: String| t@);
        let mut out = String::new();
        let mut j: usize = 0;
        while j < texts.len()
            invariant
                j <= texts@.len(),
                ts == texts@.map_values(|t: String| t@),
                j == 0 ==> out@ == Seq::<char>::empty(),
                j > 0 ==> out@ == join(ts.take(j as int), self.key_separator@),
            decreases texts@.len() - j,
        {
            proof {
                assert(ts.take(j + 1).drop_last() =~= ts.take(j as int));
                assert(ts.take(j + 1).last() == texts@[j as int]@);
            }
            if j > 0 {
                push_str(&mut out, self.key_separator.as_str());
            }
            push_str(&mut out, texts[j].as_str());
            proof {
                if j == 0 {
                    assert(ts.take(1) =~= seq![ts[0]]);
                    assert(out@ =~= ts[0]);
                }
            }
            j += 1;
        }
        proof {
            assert(ts.take(j as int) =~= ts);
        }
        Ok(out)
    }

    /// Whether the document meets the condition: the field is there, and its value
    /// equals the expected one turned into BSON, or has the same text. Where the
    /// expected value is an array or an object, BSON's own `==` and `Debug` text decide.
    pub fn evaluate_condition(&self, doc: &BsonDocument, condition: &Condition) -> (b: bool)
        ensures
            is_scalar(condition.value) ==> b == bson_condition_holds(doc.entries@, *condition),
            bson_field_value(doc.entries@, condition.field@) is None ==> !b,
    {
        match get_bson_field_value(doc, condition.field.as_str()) {
            Some(actual) => compare_values(actual, &condition.value),
            None => false,
        }
    }

    /// Whether the rule matches the document: it has conditions, and any of them holds
    /// with "OR", all of them otherwise.
    pub fn evaluate_rule(&self, doc: &BsonDocument, rule: &ChangeTypeRule) -> (b: bool)
        ensures
            scalar_rule(*rule) ==> b == bson_rule_matches(doc.entries@, *rule),
            rule.conditions@.len() == 0 ==> !b,
    {
        let n = rule.conditions.len();
        if n == 0 {
            return false;
        }
        let any = str_equal(rule.logic.as_str(), "OR");
        let mut i: usize = 0;
        while i < n
            invariant
                n == rule.conditions@.len(),
                n > 0,
                any == (rule.logic@ == "OR"@),
                i <= n,
                scalar_rule(*rule) && any ==> forall|j: int| 0 <= j < i ==> !bson_condition_holds(doc.entries@, #[trigger] rule.conditions@[j]),
                scalar_rule(*rule) && !any ==> forall|j: int| 0 <= j < i ==> bson_condition_holds(doc.entries@, #[trigger] rule.conditions@[j]),
            decreases n - i,
        {
            let holds = self.evaluate_condition(doc, &rule.conditions[i]);
            proof {
                if scalar_rule(*rule) {
                    assert(is_scalar(rule.conditions@[i as int].value));
                }
            }
            if any && holds {
                return true;
            }
            if !any && !holds {
                return false;
            }
            i += 1;
        }
        !any
    }

    /// The change kind of the first rule that matches the document, or add.
    pub fn determine_change_type(&self, doc: &BsonDocument) -> (c: ChangeType)
        ensures
            scalar_rules(self.spec_rules()) ==> c == bson_change_type_of(doc.entries@, self.spec_rules()),
            scalar_rules(self.spec_rules()) ==> forall|i: int| #[trigger] bson_first_match_at(doc.entries@, self.spec_rules(), i)
                ==> c == self.spec_rules()[i].change_type,
            scalar_rules(self.spec_rules()) && (forall|j: int| 0 <= j < self.spec_rules().len()
                ==> !bson_rule_matches(doc.entries@, #[trigger] self.spec_rules()[j])) ==> c == ChangeType::Add,
    {
        let ghost rules = self.change_type_rules@;
        proof {
            assert forall|i: int| #[trigger] bson_first_match_at(doc.entries@, rules, i) implies bson_change_type_of(doc.entries@, rules)
                == rules[i].change_type by {
                law_bson_first_matching_rule_decides(doc.entries@, rules, i);
            }
            if forall|j: int| 0 <= j < rules.len() ==> !bson_rule_matches(doc.entries@, #[trigger] rules[j]) {
                law_bson_unmatched_document_is_added(doc.entries@, rules);
            }
        }
        let mut i: usize = 0;
        proof {
            assert(rules.skip(0) =~= rules);
        }
        while i < self.change_type_rules.len()
            invariant
                rules == self.change_type_rules@,
                i <= rules.len(),
                scalar_rules(rules) ==> bson_change_type_of(doc.entries@, rules) == bson_change_type_of(doc.entries@, rules.skip(i as int)),
                forall|k: int| #[trigger] bson_first_match_at(doc.entries@, rules, k) ==> bson_change_type_of(doc.entries@, rules)
                    == rules[k].change_type,
                (forall|j: int| 0 <= j < rules.len() ==> !bson_rule_matches(doc.entries@, #[trigger] rules[j]))
                    ==> bson_change_type_of(doc.entries@, rules) == ChangeType::Add,
            decreases rules.len() - i,
        {
            proof {
                assert(rules.skip(i as int)[0] == rules[i as int]);
                assert(rules.skip(i as int).drop_first() =~= rules.skip(i + 1));
                if scalar_rules(rules) {
                    assert(scalar_rule(rules[i as int]));
                }
            }
            if self.evaluate_rule(doc, &self.change_type_rules[i]) {
                return self.change_type_rules[i].change_type;
            }
            i += 1;
        }
        ChangeType::Add
    }
}

/// The change kind and key a document gives, when its rules compare only with values
/// that are not arrays or objects, or why it gives none.
pub open spec fn spec_parse_bson_document<K: ParseValue>(
    entries: Seq<(String, BsonValue)>,
    fields: Seq<String>,
    sep: Seq<char>,
    rules: Seq<ChangeTypeRule>,
) -> Option<(ChangeType, K::V)> {
    match bson_key(entries, fields, sep) {
        Ok(k) => match K::spec_parse_value(k) {
            Some(kv) => Some((bson_change_type_of(entries, rules), kv)),
            None => None,
        },
        Err(_) => None,
    }
}

impl<K: ParseValue, V> BsonParser<K, V> {
    /// The change kind and key of a document.
    pub fn parse_document(&self, doc: &BsonDocument) -> (r: Result<(ChangeType, K), ParserError>)
        ensures
            r is Ok <==> spec_parse_bson_document::<K>(doc.entries@, self.spec_key_fields(), self.spec_key_separator(), self.spec_rules()) is Some,
            scalar_rules(self.spec_rules()) ==> match spec_parse_bson_document::<K>(
                doc.entries@,
                self.spec_key_fields(),
                self.spec_key_separator(),
                self.spec_rules(),
            ) {
                Some((ct, kv)) => r matches Ok((c, k)) && c == ct && k@ == kv,
                None => r is Err,
            },
    {
        let key_text = match self.generate_key(doc) {
            Ok(k) => k,
            Err(e) => return Err(e),
        };
        let key = match K::parse_value(key_text.as_str()) {
            Ok(k) => k,
            Err(e) => {
                let mut m = "failed to parse key: ".to_owned();
                let t = e.message();
                push_str(&mut m, t.as_str());
                return Err(ParserError::ParseFailed(m));
            },
        };
        Ok((self.determine_change_type(doc), key))
    }

    /// Whether `e` is why parsing the record `buf` fails: the bytes are no BSON
    /// document; or its members nest deeper than the parser reads; or the document
    /// gives no key; or it does, and reading the whole document as the value type
    /// failed.
    pub open spec fn parse_failure(&self, buf: Seq<u8>, e: ParserError) -> bool {
        ||| !bson_parses(buf) && (e matches ParserError::ParseFailed(m) && exists|t: Seq<char>| m@ == #[trigger] ("failed to parse BSON: "@ + t))
        ||| bson_parses(buf) && (e matches ParserError::ParseFailed(m) && m@ == too_deep_bson_message())
            && forall|d: BsonDocument| !#[trigger] bson_document_fits(buf, d)
        ||| exists|d: BsonDocument| #[trigger] bson_document_fits(buf, d)
            && spec_parse_bson_document::<K>(d.entries@, self.spec_key_fields(), self.spec_key_separator(), self.spec_rules()) is None
        ||| exists|d: BsonDocument| #[trigger] bson_document_fits(buf, d)
            && spec_parse_bson_document::<K>(d.entries@, self.spec_key_fields(), self.spec_key_separator(), self.spec_rules()) is Some
            && (e matches ParserError::ParseFailed(m) && exists|t: Seq<char>| m@ == #[trigger] ("failed to deserialize value: "@ + t))
    }

    /// Parses a BSON record: the key and change kind from the document the bytes hold,
    /// the value by reading the whole document as `V`. The change kind is the rules'
    /// exactly when they compare only with values that are not arrays or documents.
    pub fn parse(&self, buf: &[u8]) -> (r: Result<(ChangeType, K, V), ParserError>)
        where
            V: serde::de::DeserializeOwned,
        ensures
            !bson_parses(buf@) ==> (r matches Err(ParserError::ParseFailed(m))
                && exists|t: Seq<char>| m@ == #[trigger] ("failed to parse BSON: "@ + t)),
            r matches Ok((ct, k, _)) ==> exists|d: BsonDocument| #[trigger] bson_document_fits(buf@, d)
                && spec_parse_bson_document::<K>(d.entries@, self.spec_key_fields(), self.spec_key_separator(), self.spec_rules()) is Some
                && (scalar_rules(self.spec_rules()) ==> spec_parse_bson_document::<K>(
                    d.entries@,
                    self.spec_key_fields(),
                    self.spec_key_separator(),
                    self.spec_rules(),
                ) == Some((ct, k@))),
            r matches Err(e) ==> self.parse_failure(buf@, e),
    {
        let doc = match read_bson_document(buf) {
            Ok(d) => d,
            Err(e) => return Err(e),
        };
        let (ct, key) = match self.parse_document(&doc) {
            Ok(p) => p,
            Err(e) => {
                assert(bson_document_fits(buf@, doc));
                return Err(e);
            },
        };
        assert(bson_document_fits(buf@, doc));
        let value: V = match bson_from_slice(buf) {
            Ok(v) => v,
            Err(t) => {
                let mut m = "failed to deserialize value: ".to_owned();
                push_str(&mut m, t.as_str());
                return Err(ParserError::ParseFailed(m));
            },
        };
        Ok((ct, key, value))
    }
}

} // verus!
