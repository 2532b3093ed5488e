//! Records held as JSON documents: the key is made of chosen fields, and rules on
//! field values decide the change kind.

use vstd::prelude::*;

use crate::kv::serializer::json_serializer::json_from_slice;
use crate::text::{
    all_ascii, ascii_lowercase, decimal, i64_to_decimal, lowercase, push_str, signed_decimal, str_chars, str_equal, to_lowercase, to_uppercase,
    u64_to_decimal, uppercase,
};
use super::core_types::{ChangeType, ParserError};
use super::json_cursor::{json_child, json_node, json_node_at, json_parses, json_root, JsonCursor, JsonNode};
use super::parse_value::ParseValue;

verus! {

/// A JSON value as the parser reads it.
#[derive(Debug)]
pub enum JsonValue {
    Null,
    Bool(bool),
    /// A whole number that fits in an `i64`.
    Int(i64),
    /// A whole number above `i64::MAX`.
    UInt(u64),
    /// Any other number, held as its `f64`: the IEEE-754 bits, and the decimal text
    /// Rust writes for it.
    Float(u64, String),
    Str(String),
    /// The items, and the compact JSON text of the array.
    Array(Vec<JsonValue>, String),
    /// The members in the document's order, and the compact JSON text of the object.
    Object(Vec<(String, JsonValue)>, String),
}

/// The text of a value as keys and comparisons use it: strings without quotes,
/// numbers in decimal, anything else as compact JSON.
pub open spec fn value_text(v: JsonValue) -> Seq<char> {
    match v {
        JsonValue::Null => "null"@,
        JsonValue::Bool(b) => if b {
            "true"@
        } else {
            "false"@
        },
        JsonValue::Int(n) => signed_decimal(n as int),
        JsonValue::UInt(n) => decimal(n as nat),
        JsonValue::Float(_, t) => t@,
        JsonValue::Str(s) => s@,
        JsonValue::Array(_, t) => t@,
        JsonValue::Object(_, t) => t@,
    }
}

impl JsonValue {
    /// The text of the value as keys and comparisons use it.
    pub fn text(&self) -> (s: String)
        ensures
            s@ == value_text(*self),
    {
        match self {
            JsonValue::Null => "null".to_owned(),
            JsonValue::Bool(b) => if *b {
                "true".to_owned()
            } else {
                "false".to_owned()
            },
            JsonValue::Int(n) => i64_to_decimal(*n),
            JsonValue::UInt(n) => u64_to_decimal(*n),
            JsonValue::Float(_, t) => t.clone(),
            JsonValue::Str(s) => s.clone(),
            JsonValue::Array(_, t) => t.clone(),
            JsonValue::Object(_, t) => t.clone(),
        }
    }
}

/// The parts of `s` between the occurrences of `c`.
pub open spec fn split_on(s: Seq<char>, c: char) -> Seq<Seq<char>>
    decreases s.len(),
{
    if s.len() == 0 {
        seq![Seq::<char>::empty()]
    } else {
        let rest = split_on(s.drop_last(), c);
        if s.last() == c {
            rest.push(Seq::empty())
        } else {
            rest.update(rest.len() - 1, rest.last().push(s.last()))
        }
    }
}

proof fn lemma_split_on_nonempty(s: Seq<char>, c: char)
    ensures
        split_on(s, c).len() > 0,
    decreases s.len(),
{
    if s.len() > 0 {
        lemma_split_on_nonempty(s.drop_last(), c);
    }
}

/// The parts of `s` between the occurrences of `c`.
pub fn split_chars(s: &str, c: char) -> (r: Vec<String>)
    ensures
        r@.map_values(|p: String| p@) == split_on(s@, c),
{
    let cs = str_chars(s);
    let mut parts: Vec<String> = Vec::new();
    parts.push(String::new());
    let mut i: usize = 0;
    proof {
        assert(cs@.take(0) =~= Seq::<char>::empty());
        assert(parts@.map_values(|p: String| p@) =~= split_on(cs@.take(0), c));
    }
    while i < cs.len()
        invariant
            i <= cs@.len(),
            cs@ == s@,
            parts@.len() > 0,
            parts@.map_values(|p: String| p@) == split_on(cs@.take(i as int), c),
        decreases cs@.len() - i,
    {
        let ghost before = parts@.map_values(|p: String| p@);
        proof {
            assert(cs@.take(i + 1).drop_last() =~= cs@.take(i as int));
            assert(cs@.take(i + 1).last() == cs@[i as int]);
        }
        if cs[i] == c {
            parts.push(String::new());
            proof {
                assert(parts@.map_values(|p: String| p@) =~= before.push(Seq::empty()));
            }
        } else {
            let last = parts.len() - 1;
            let mut p = parts[last].clone();
            crate::text::push_char(&mut p, cs[i]);
            parts.set(last, p);
            proof {
                assert(parts@.map_values(|p: String| p@) =~= before.update(before.len() - 1, before.last().push(cs@[i as int])));
            }
        }
        i += 1;
    }
    proof {
        assert(cs@.take(i as int) =~= s@);
    }
    parts
}

/// The value of the first member named `key`.
pub open spec fn member(entries: Seq<(String, JsonValue)>, key: Seq<char>) -> Option<JsonValue>
    decreases entries.len(),
{
    if entries.len() == 0 {
        None
    } else if entries[0].0@ == key {
        Some(entries[0].1)
    } else {
        member(entries.drop_first(), key)
    }
}

/// The value reached from `v` by the member names `parts`, one object at a time.
pub open spec fn walk(v: JsonValue, parts: Seq<Seq<char>>) -> Option<JsonValue>
    decreases parts.len(),
{
    if parts.len() == 0 {
        Some(v)
    } else {
        match v {
            JsonValue::Object(es, _) => match member(es@, parts[0]) {
                Some(x) => walk(x, parts.drop_first()),
                None => None,
            },
            _ => None,
        }
    }
}

/// The value at a dotted path such as "user.id"; an empty path names nothing.
pub open spec fn field_value(data: JsonValue, path: Seq<char>) -> Option<JsonValue> {
    if path.len() == 0 {
        None
    } else {
        walk(data, split_on(path, '.'))
    }
}

/// The value of the first member named `key`.
fn find_member<'a>(entries: &'a Vec<(String, JsonValue)>, key: &str) -> (r: Option<&'a JsonValue>)
    ensures
        match member(entries@, key@) {
            Some(v) => r == Some(&v),
            None => r is None,
        },
{
    let mut i: usize = 0;
    proof {
        assert(entries@.skip(0) =~= entries@);
    }
    while i < entries.len()
        invariant
            i <= entries@.len(),
            member(entries@, key@) == member(entries@.skip(i as int), key@),
        decreases entries@.len() - i,
    {
        proof {
            assert(entries@.skip(i as int)[0] == entries@[i as int]);
            assert(entries@.skip(i as int).drop_first() =~= entries@.skip(i + 1));
        }
        if str_equal(entries[i].0.as_str(), key) {
            return Some(&entries[i].1);
        }
        i += 1;
    }
    None
}

/// The value at a dotted path such as "user.id".
pub fn get_field_value<'a>(data: &'a JsonValue, path: &str) -> (r: Option<&'a JsonValue>)
    ensures
        match field_value(*data, path@) {
            Some(v) => r == Some(&v),
            None => r is None,
        },
{
    if path.is_empty() {
        return None;
    }
    let parts = split_chars(path, '.');
    let ghost ps = parts@.map_values(|p: String| p@);
    let mut current: &JsonValue = data;
    let mut i: usize = 0;
    proof {
        assert(ps.skip(0) =~= ps);
    }
    while i < parts.len()
        invariant
            i <= parts@.len(),
            ps == parts@.map_values(|p: String| p@),
            ps == split_on(path@, '.'),
            path@.len() > 0,
            walk(*data, ps) == walk(*current, ps.skip(i as int)),
        decreases parts@.len() - i,
    {
        proof {
            assert(ps.skip(i as int)[0] == parts@[i as int]@);
            assert(ps.skip(i as int).drop_first() =~= ps.skip(i + 1));
        }
        match current {
            JsonValue::Object(es, _) => match find_member(es, parts[i].as_str()) {
                Some(x) => {
                    current = x;
                },
                None => return None,
            },
            _ => return None,
        }
        i += 1;
    }
    proof {
        assert(ps.skip(i as int) =~= Seq::<Seq<char>>::empty());
    }
    Some(current)
}

/// A condition: the field at `field` has the text of `value`.
#[derive(Debug)]
pub struct Condition {
    /// A dotted path such as "user.status".
    pub field: String,
    pub value: JsonValue,
}

/// A rule: when its conditions hold (all of them, or any with "OR"), the record has
/// the rule's change kind.
#[derive(Debug)]
pub struct ChangeTypeRule {
    pub conditions: Vec<Condition>,
    /// "AND" or "OR", in any case.
    pub logic: String,
    pub change_type: ChangeType,
}

/// Configuration of a `JsonParser`.
#[derive(Debug)]
pub struct JsonParserConfig {
    /// The dotted paths of the fields the key is made of, in order.
    pub key_fields: Vec<String>,
    /// The text between the key's parts.
    pub key_separator: String,
    /// The rules, tried in order.
    pub change_type_rules: Vec<ChangeTypeRule>,
}

impl Default for JsonParserConfig {
    fn default() -> (c: Self)
        ensures
            c.key_fields@.len() == 1,
            c.key_fields@[0]@ == "id"@,
            c.key_separator@ == "_"@,
            c.change_type_rules@.len() == 0,
    {
        let mut key_fields: Vec<String> = Vec::new();
        key_fields.push("id".to_owned());
        JsonParserConfig { key_fields, key_separator: "_".to_owned(), change_type_rules: Vec::new() }
    }
}

/// The logic of a rule when none is configured.
pub fn default_logic() -> (s: String)
    ensures
        s@ == "AND"@,
{
    "AND".to_owned()
}

/// The change kind a rule's configured type names: 1, 2, 3 as a whole number, or
/// "add", "update", "delete" in any case; anything else is unknown.
pub open spec fn spec_configured_change_type(v: JsonValue) -> ChangeType {
    let n: Option<int> = match v {
        JsonValue::Int(n) => Some(n as int),
        _ => None,
    };
    match n {
        Some(n) => if n == 1 {
            ChangeType::Add
        } else if n == 2 {
            ChangeType::Update
        } else if n == 3 {
            ChangeType::Delete
        } else {
            ChangeType::Unknown
        },
        None => match v {
            JsonValue::Str(s) => {
                let l = lowercase(s@);
                if l == "add"@ {
                    ChangeType::Add
                } else if l == "update"@ {
                    ChangeType::Update
                } else if l == "delete"@ {
                    ChangeType::Delete
                } else {
                    ChangeType::Unknown
                }
            },
            _ => ChangeType::Unknown,
        },
    }
}

/// The change kind a rule's configured type names.
pub fn configured_change_type(v: &JsonValue) -> (c: ChangeType)
    ensures
        c == spec_configured_change_type(*v),
        v matches JsonValue::Str(s) ==> (all_ascii(s@) ==> lowercase(s@) == ascii_lowercase(s@)),
{
    match v {
        JsonValue::Int(n) => if *n == 1 {
            ChangeType::Add
        } else if *n == 2 {
            ChangeType::Update
        } else if *n == 3 {
            ChangeType::Delete
        } else {
            ChangeType::Unknown
        },
        JsonValue::Str(s) => {
            let l = to_lowercase(s.as_str());
            if str_equal(l.as_str(), "add") {
                ChangeType::Add
            } else if str_equal(l.as_str(), "update") {
                ChangeType::Update
            } else if str_equal(l.as_str(), "delete") {
                ChangeType::Delete
            } else {
                ChangeType::Unknown
            }
        },
        _ => ChangeType::Unknown,
    }
}

/// The texts of the key's fields, or the message of the first field that is missing.
pub open spec fn key_texts(data: JsonValue, fields: Seq<String>) -> Result<Seq<Seq<char>>, Seq<char>>
    decreases fields.len(),
{
    if fields.len() == 0 {
        Ok(Seq::empty())
    } else {
        match key_texts(data, fields.drop_last()) {
            Err(e) => Err(e),
            Ok(ts) => match field_value(data, fields.last()@) {
                None => Err("key field '"@ + fields.last()@ + "' not found in JSON"@),
                Some(v) => Ok(ts.push(value_text(v))),
            },
        }
    }
}

/// The texts joined with `sep` between them.
pub open spec fn join(ts: Seq<Seq<char>>, sep: Seq<char>) -> Seq<char>
    decreases ts.len(),
{
    if ts.len() == 0 {
        Seq::empty()
    } else if ts.len() == 1 {
        ts[0]
    } else {
        join(ts.drop_last(), sep) + sep + ts.last()
    }
}

/// The key of a document: the fields' texts joined by the separator.
pub open spec fn spec_key(data: JsonValue, fields: Seq<String>, sep: Seq<char>) -> Result<Seq<char>, Seq<char>> {
    if fields.len() == 0 {
        Err("no key fields configured"@)
    } else {
        match key_texts(data, fields) {
            Ok(ts) => Ok(join(ts, sep)),
            Err(e) => Err(e),
        }
    }
}

/// Whether the document meets a condition: the field is there and has the same text.
pub open spec fn spec_condition_holds(data: JsonValue, c: Condition) -> bool {
    match field_value(data, c.field@) {
        Some(a) => value_text(a) == value_text(c.value),
        None => false,
    }
}

/// Whether a rule matches: it has conditions, and any of them holds with "OR", all
/// of them otherwise.
pub open spec fn spec_rule_matches(data: JsonValue, rule: ChangeTypeRule) -> bool {
    let cs = rule.conditions@;
    if cs.len() == 0 {
        false
    } else if rule.logic@ == "OR"@ {
        exists|i: int| 0 <= i < cs.len() && spec_condition_holds(data, #[trigger] cs[i])
    } else {
        forall|i: int| 0 <= i < cs.len() ==> spec_condition_holds(data, #[trigger] cs[i])
    }
}

/// The change kind of the first rule that matches, or add.
pub open spec fn spec_change_type_of(data: JsonValue, rules: Seq<ChangeTypeRule>) -> ChangeType
    decreases rules.len(),
{
    if rules.len() == 0 {
        ChangeType::Add
    } else if spec_rule_matches(data, rules[0]) {
        rules[0].change_type
    } else {
        spec_change_type_of(data, rules.drop_first())
    }
}

/// Whether rule `i` is the first of `rules` that the document matches.
pub open spec fn first_match_at(data: JsonValue, rules: Seq<ChangeTypeRule>, i: int) -> bool {
    &&& 0 <= i < rules.len()
    &&& spec_rule_matches(data, rules[i])
    &&& forall|j: int| 0 <= j < i ==> !spec_rule_matches(data, #[trigger] rules[j])
}

/// The first rule the document matches decides the change kind, whatever the rules
/// after it say.
pub proof fn law_first_matching_rule_decides(data: JsonValue, rules: Seq<ChangeTypeRule>, i: int)
    requires
        first_match_at(data, rules, i),
    ensures
        spec_change_type_of(data, rules) == rules[i].change_type,
    decreases i,
{
    if i > 0 {
        assert(!spec_rule_matches(data, rules[0]));
        let rest = rules.drop_first();
        assert forall|j: int| 0 <= j < i - 1 implies !spec_rule_matches(data, #[trigger] rest[j]) by {
            assert(rest[j] == rules[j + 1]);
        }
        assert(rest[i - 1] == rules[i]);
        law_first_matching_rule_decides(data, rest, i - 1);
    }
}

/// A document that matches no rule is an addition.
pub proof fn law_unmatched_document_is_added(data: JsonValue, rules: Seq<ChangeTypeRule>)
    requires
        forall|j: int| 0 <= j < rules.len() ==> !spec_rule_matches(data, #[trigger] rules[j]),
    ensures
        spec_change_type_of(data, rules) == ChangeType::Add,
    decreases rules.len(),
{
    if rules.len() > 0 {
        let rest = rules.drop_first();
        assert forall|j: int| 0 <= j < rest.len() implies !spec_rule_matches(data, #[trigger] rest[j]) by {
            assert(rest[j] == rules[j + 1]);
        }
        assert(!spec_rule_matches(data, rules[0]));
        law_unmatched_document_is_added(data, rest);
    }
}

/// Whether arrays and objects nest at most `depth` levels in `v`.
pub open spec fn nested_within(v: JsonValue, depth: nat) -> bool
    decreases depth,
{
    match v {
        JsonValue::Array(items, _) => depth > 0 && forall|i: int|
            0 <= i < items@.len() ==> nested_within(#[trigger] items@[i], (depth - 1) as nat),
        JsonValue::Object(entries, _) => depth > 0 && forall|i: int|
            0 <= i < entries@.len() ==> nested_within(#[trigger] entries@[i].1, (depth - 1) as nat),
        _ => true,
    }
}

/// Whether `d` reads the number with these readings: a whole number within `i64` as
/// `Int`, else one within `u64` as `UInt`, else the double.
pub open spec fn number_fits(i: Option<i64>, u: Option<u64>, bits: Option<u64>, text: Option<String>, d: JsonValue) -> bool {
    match i {
        Some(n) => d == JsonValue::Int(n),
        None => match u {
            Some(n) => d == JsonValue::UInt(n),
            None => match (bits, text) {
                (Some(b), Some(t)) => d matches JsonValue::Float(b2, t2) && b2 == b && t2@ == t@,
                _ => false,
            },
        },
    }
}

/// Whether `d` is the parser's view of the JSON value read from `text` at `path`, to
/// the full depth of `d`: each variant as `serde_json` reads it, the items and members
/// in order, strings, keys and texts character for character.
pub open spec fn json_fits(text: Seq<u8>, path: Seq<usize>, d: JsonValue) -> bool
    decreases d,
{
    match json_node_at(text, path) {
        JsonNode::Null => d is Null,
        JsonNode::Bool(b) => d == JsonValue::Bool(b),
        JsonNode::Number(i, u, bits, t) => number_fits(i, u, bits, t, d),
        JsonNode::Str(s) => d matches JsonValue::Str(s2) && s2@ == s@,
        JsonNode::Array(n, t) => match d {
            JsonValue::Array(items, t2) => {
                &&& t2@ == t@
                &&& items@.len() == n
                &&& forall|k: int| 0 <= k < items@.len() ==> json_fits(text, path.push(k as usize), #[trigger] items@[k])
            },
            _ => false,
        },
        JsonNode::Object(keys, t) => match d {
            JsonValue::Object(entries, t2) => {
                &&& t2@ == t@
                &&& entries@.len() == keys@.len()
                &&& forall|k: int| 0 <= k < entries@.len() ==> (#[trigger] entries@[k]).0@ == keys@[k]@ && json_fits(
                    text,
                    path.push(k as usize),
                    entries@[k].1,
                )
            },
            _ => false,
        },
    }
}

/// The parser's view of the JSON value at `c`, if it nests at most `depth` levels; when
/// it nests deeper, no view of it does.
fn json_doc(c: &JsonCursor, depth: usize) -> (r: Option<JsonValue>)
    ensures
        r matches Some(d) ==> json_fits(c.spec_text(), c.spec_path(), d) && nested_within(d, depth as nat),
        r is None ==> forall|d: JsonValue| #[trigger] json_fits(c.spec_text(), c.spec_path(), d) ==> !nested_within(d, depth as nat),
    decreases depth,
{
    let ghost text = c.spec_text();
    let ghost path = c.spec_path();
    match json_node(c) {
        JsonNode::Null => Some(JsonValue::Null),
        JsonNode::Bool(b) => Some(JsonValue::Bool(b)),
        JsonNode::Number(i, u, bits, t) => match i {
            Some(n) => Some(JsonValue::Int(n)),
            None => match u {
                Some(n) => Some(JsonValue::UInt(n)),
                None => match (bits, t) {
                    (Some(b), Some(t)) => Some(JsonValue::Float(b, t)),
                    _ => None,
                },
            },
        },
        JsonNode::Str(s) => Some(JsonValue::Str(s)),
        JsonNode::Array(n, t) => {
            if depth == 0 {
                return None;
            }
            let mut out: Vec<JsonValue> = Vec::new();
            let mut k: usize = 0;
            while k < n
                invariant
                    k <= n,
                    depth > 0,
                    text == c.spec_text(),
                    path == c.spec_path(),
                    json_node_at(text, path) == JsonNode::Array(n, t),
                    out@.len() == k,
                    forall|j: int| 0 <= j < k ==> json_fits(text, path.push(j as usize), #[trigger] out@[j])
                        && nested_within(out@[j], (depth - 1) as nat),
                decreases n - k,
            {
                let child = json_child(c, k);
                match json_doc(&child, depth - 1) {
                    Some(x) => out.push(x),
                    None => {
                        proof {
                            assert forall|d: JsonValue| #[trigger] json_fits(text, path, d) implies !nested_within(d, depth as nat) by {
                                if let JsonValue::Array(items, _) = d {
                                    assert(json_fits(text, path.push(k), items@[k as int]));
                                }
                            }
                        }
                        return None;
                    },
                }
                k += 1;
            }
            let d = JsonValue::Array(out, t);
            proof {
                assert(json_fits(text, path, d));
            }
            Some(d)
        },
        JsonNode::Object(keys, t) => {
            if depth == 0 {
                return None;
            }
            let mut out: Vec<(String, JsonValue)> = Vec::new();
            let mut k: usize = 0;
            while k < keys.len()
                invariant
                    k <= keys@.len(),
                    depth > 0,
                    text == c.spec_text(),
                    path == c.spec_path(),
                    json_node_at(text, path) == JsonNode::Object(keys, t),
                    out@.len() == k,
                    forall|j: int| 0 <= j < k ==> (#[trigger] out@[j]).0@ == keys@[j]@ && json_fits(text, path.push(j as usize), out@[j].1)
                        && nested_within(out@[j].1, (depth - 1) as nat),
                decreases keys@.len() - k,
            {
                let child = json_child(c, k);
                match json_doc(&child, depth - 1) {
                    Some(x) => out.push((keys[k].clone(), x)),
                    None => {
                        proof {
                            assert forall|d: JsonValue| #[trigger] json_fits(text, path, d) implies !nested_within(d, depth as nat) by {
                                if let JsonValue::Object(entries, _) = d {
                                    assert(json_fits(text, path.push(k), entries@[k as int].1));
                                }
                            }
                        }
                        return None;
                    },
                }
                k += 1;
            }
            let d = JsonValue::Object(out, t);
            proof {
                assert(json_fits(text, path, d));
            }
            Some(d)
        },
    }
}

/// The deepest nesting of arrays and objects the parser reads; `serde_json` itself
/// stops at 128.
pub const MAX_JSON_DEPTH: usize = 256;

/// The message of a document nested deeper than the parser reads.
pub open spec fn too_deep_json_message() -> Seq<char> {
    "failed to parse JSON: nested too deeply"@
}

/// Whether `d` is the parser's view of the document the JSON bytes hold, within the
/// nesting the parser reads.
pub open spec fn json_document_fits(bytes: Seq<u8>, d: JsonValue) -> bool {
    json_fits(bytes, Seq::empty(), d) && nested_within(d, MAX_JSON_DEPTH as nat)
}

/// The document the JSON bytes hold, or why they hold none: bytes that are no JSON
/// text give `serde_json`'s error; a JSON text gives the parser's view of its value,
/// unless it nests deeper than the parser reads.
pub fn read_document(buf: &[u8]) -> (r: Result<JsonValue, ParserError>)
    ensures
        !json_parses(buf@) ==> (r matches Err(ParserError::ParseFailed(m))
            && exists|t: Seq<char>| m@ == #[trigger] ("failed to parse JSON: "@ + t)),
        json_parses(buf@) ==> match r {
            Ok(d) => json_document_fits(buf@, d),
            Err(e) => (e matches ParserError::ParseFailed(m) && m@ == too_deep_json_message())
                && forall|d: JsonValue| #[trigger] json_fits(buf@, Seq::empty(), d) ==> !nested_within(d, MAX_JSON_DEPTH as nat),
        },
{
    let root = match json_root(buf) {
        Ok(c) => c,
        Err(t) => {
            let mut m = "failed to parse JSON: ".to_owned();
            push_str(&mut m, t.as_str());
            return Err(ParserError::ParseFailed(m));
        },
    };
    match json_doc(&root, MAX_JSON_DEPTH) {
        Some(d) => Ok(d),
        None => {
            let mut m = "failed to parse JSON: ".to_owned();
            push_str(&mut m, "nested too deeply");
            proof {
                reveal_strlit("failed to parse JSON: ");
                reveal_strlit("nested too deeply");
                reveal_strlit("failed to parse JSON: nested too deeply");
                assert(m@ =~= too_deep_json_message());
            }
            Err(ParserError::ParseFailed(m))
        },
    }
}

/// The rules with their logic put in upper case, in the same order.
pub fn normalize_rules(rules_in: Vec<ChangeTypeRule>) -> (rules: Vec<ChangeTypeRule>)
    ensures
        rules@.len() == rules_in@.len(),
        forall|i: int| 0 <= i < rules_in@.len() ==> {
            &&& (#[trigger] rules@[i]).conditions@ == rules_in@[i].conditions@
            &&& rules@[i].logic@ == uppercase(rules_in@[i].logic@)
            &&& rules@[i].change_type == rules_in@[i].change_type
        },
{
    let mut rules_in = rules_in;
    let ghost original = rules_in@;
    let n = rules_in.len();
    let mut rules: Vec<ChangeTypeRule> = Vec::new();
    let mut i: usize = 0;
    while i < n
        invariant
            n == original.len(),
            i <= n,
            rules_in@ == original.skip(i as int),
            rules@.len() == i,
            forall|j: int| 0 <= j < i ==> {
                &&& (#[trigger] rules@[j]).conditions@ == original[j].conditions@
                &&& rules@[j].logic@ == uppercase(original[j].logic@)
                &&& rules@[j].change_type == original[j].change_type
            },
        decreases n - i,
    {
        let mut rule = rules_in.remove(0);
        proof {
            assert(rule == original[i as int]);
            assert(rules_in@ =~= original.skip(i + 1));
        }
        rule.logic = to_uppercase(rule.logic.as_str());
        rules.push(rule);
        i += 1;
    }
    rules
}

/// Parses JSON documents: the key is made of the configured fields, the change kind
/// comes from the first rule that matches (add when none does), and the value is the
/// document read as `V`.
pub struct JsonParser<K, V> {
    key_fields: Vec<String>,
    key_separator: String,
    change_type_rules: Vec<ChangeTypeRule>,
    _phantom: std::marker::PhantomData<(K, V)>,
}

impl<K, V> JsonParser<K, V> {
    /// A parser with the configuration; the rules' logic is put in upper case.
    pub fn new(config: JsonParserConfig) -> (p: Self)
        ensures
            p.spec_key_fields() == config.key_fields@,
            p.spec_key_separator() == config.key_separator@,
            p.spec_rules().len() == config.change_type_rules@.len(),
            forall|i: int| 0 <= i < config.change_type_rules@.len() ==> {
                &&& (#[trigger] p.spec_rules()[i]).conditions@ == config.change_type_rules@[i].conditions@
                &&& p.spec_rules()[i].logic@ == uppercase(config.change_type_rules@[i].logic@)
                &&& p.spec_rules()[i].change_type == config.change_type_rules@[i].change_type
            },
    {
        let rules = normalize_rules(config.change_type_rules);
        JsonParser {
            key_fields: config.key_fields,
            key_separator: config.key_separator,
            change_type_rules: rules,
            _phantom: std::marker::PhantomData,
        }
    }

    pub closed spec fn spec_key_fields(&self) -> Seq<String> {
        self.key_fields@
    }

    pub closed spec fn spec_key_separator(&self) -> Seq<char> {
        self.key_separator@
    }

    pub closed spec fn spec_rules(&self) -> Seq<ChangeTypeRule> {
        self.change_type_rules@
    }
}

impl<K, V> JsonParser<K, V> {
    /// The key of a document: the texts of the key fields joined by the separator;
    /// an error names the first field missing, or says that none is configured.
    pub fn generate_key(&self, data: &JsonValue) -> (r: Result<String, ParserError>)
        ensures
            match spec_key(*data, self.spec_key_fields(), self.spec_key_separator()) {
                Ok(k) => r matches Ok(s) && s@ == k,
                Err(m) => r matches Err(ParserError::ParseFailed(e)) && e@ == m,
            },
    {
        if self.key_fields.len() == 0 {
            return Err(ParserError::ParseFailed("no key fields configured".to_owned()));
        }
        let ghost fields = self.key_fields@;
        let mut texts: Vec<String> = Vec::new();
        let mut i: usize = 0;
        proof {
            assert(fields.take(0) =~= Seq::<String>::empty());
            assert(texts@.map_values(|t: String| t@) =~= Seq::<Seq<char>>::empty());
        }
        while i < self.key_fields.len()
            invariant
                fields == self.key_fields@,
                i <= fields.len(),
                key_texts(*data, fields.take(i as int)) == Ok::<Seq<Seq<char>>, Seq<char>>(texts@.map_values(|t: String| t@)),
            decreases fields.len() - i,
        {
            proof {
                assert(fields.take(i + 1).drop_last() =~= fields.take(i as int));
                assert(fields.take(i + 1).last() == fields[i as int]);
            }
            let field = &self.key_fields[i];
            match get_field_value(data, field.as_str()) {
                Some(v) => {
                    let ghost before = texts@.map_values(|t: String| t@);
                    texts.push(v.text());
                    proof {
                        assert(texts@.map_values(|t: String| t@) =~= before.push(value_text(*v)));
                    }
                },
                None => {
                    let mut m = "key field '".to_owned();
                    push_str(&mut m, field.as_str());
                    push_str(&mut m, "' not found in JSON");
                    proof {
                        let k = fields.take(i + 1);
                        assert(key_texts(*data, k) == Err::<Seq<Seq<char>>, Seq<char>>(m@));
                        lemma_key_texts_stop(*data, fields, i + 1);
                    }
                    return Err(ParserError::ParseFailed(m));
                },
            }
            i += 1;
        }
        proof {
            assert(fields.take(i as int) =~= fields);
        }
        let ghost ts = texts@.map_values(|t: String| t@);
        let mut out = String::new();
        let mut j: usize = 0;
        while j < texts.len()
            invariant
                j <= texts@.len(),
                ts == texts@.map_values(|t: String| t@),
                j == 0 ==> out@ == Seq::<char>::empty(),
                j > 0 ==> out@ == join(ts.take(j as int), self.key_separator@),
            decreases texts@.len() - j,
        {
            proof {
                assert(ts.take(j + 1).drop_last() =~= ts.take(j as int));
                assert(ts.take(j + 1).last() == texts@[j as int]@);
            }
            if j > 0 {
                push_str(&mut out, self.key_separator.as_str());
            }
            push_str(&mut out, texts[j].as_str());
            proof {
                if j == 0 {
                    assert(ts.take(1) =~= seq![ts[0]]);
                    assert(out@ =~= ts[0]);
                }
            }
            j += 1;
        }
        proof {
            assert(ts.take(j as int) =~= ts);
        }
        Ok(out)
    }

    /// Whether the document meets the condition.
    pub fn evaluate_condition(&self, data: &JsonValue, condition: &Condition) -> (b: bool)
        ensures
            b == spec_condition_holds(*data, *condition),
    {
        match get_field_value(data, condition.field.as_str()) {
            Some(actual) => {
                let a = actual.text();
                let e = condition.value.text();
                str_equal(a.as_str(), e.as_str())
            },
            None => false,
        }
    }

    /// Whether the rule matches the document.
    pub fn evaluate_rule(&self, data: &JsonValue, rule: &ChangeTypeRule) -> (b: bool)
        ensures
            b == spec_rule_matches(*data, *rule),
    {
        let n = rule.conditions.len();
        if n == 0 {
            return false;
        }
        let any = str_equal(rule.logic.as_str(), "OR");
        let mut i: usize = 0;
        while i < n
            invariant
                n == rule.conditions@.len(),
                n > 0,
                any == (rule.logic@ == "OR"@),
                i <= n,
                any ==> forall|j: int| 0 <= j < i ==> !spec_condition_holds(*data, #[trigger] rule.conditions@[j]),
                !any ==> forall|j: int| 0 <= j < i ==> spec_condition_holds(*data, #[trigger] rule.conditions@[j]),
            decreases n - i,
        {
            let holds = self.evaluate_condition(data, &rule.conditions[i]);
            if any && holds {
                return true;
            }
            if !any && !holds {
                return false;
            }
            i += 1;
        }
        !any
    }

    /// The change kind of the first rule that matches the document, or add.
    pub fn determine_change_type(&self, data: &JsonValue) -> (c: ChangeType)
        ensures
            c == spec_change_type_of(*data, self.spec_rules()),
            forall|i: int| #[trigger] first_match_at(*data, self.spec_rules(), i) ==> c == self.spec_rules()[i].change_type,
            (forall|j: int| 0 <= j < self.spec_rules().len() ==> !spec_rule_matches(*data, #[trigger] self.spec_rules()[j]))
                ==> c == ChangeType::Add,
    {
        let ghost rules = self.change_type_rules@;
        proof {
            assert forall|i: int| #[trigger] first_match_at(*data, rules, i) implies spec_change_type_of(*data, rules)
                == rules[i].change_type by {
                law_first_matching_rule_decides(*data, rules, i);
            }
            if forall|j: int| 0 <= j < rules.len() ==> !spec_rule_matches(*data, #[trigger] rules[j]) {
                law_unmatched_document_is_added(*data, rules);
            }
        }
        let mut i: usize = 0;
        proof {
            assert(rules.skip(0) =~= rules);
        }
        while i < self.change_type_rules.len()
            invariant
                rules == self.change_type_rules@,
                i <= rules.len(),
                spec_change_type_of(*data, rules) == spec_change_type_of(*data, rules.skip(i as int)),
                forall|k: int| #[trigger] first_match_at(*data, rules, k) ==> spec_change_type_of(*data, rules) == rules[k].change_type,
                (forall|j: int| 0 <= j < rules.len() ==> !spec_rule_matches(*data, #[trigger] rules[j]))
                    ==> spec_change_type_of(*data, rules) == ChangeType::Add,
            decreases rules.len() - i,
        {
            proof {
                assert(rules.skip(i as int)[0] == rules[i as int]);
                assert(rules.skip(i as int).drop_first() =~= rules.skip(i + 1));
            }
            if self.evaluate_rule(data, &self.change_type_rules[i]) {
                return self.change_type_rules[i].change_type;
            }
            i += 1;
        }
        ChangeType::Add
    }
}

/// Once a key field is missing, the later fields change nothing.
proof fn lemma_key_texts_stop(data: JsonValue, fields: Seq<String>, j: int)
    requires
        0 <= j <= fields.len(),
        key_texts(data, fields.take(j)) is Err,
    ensures
        key_texts(data, fields) == key_texts(data, fields.take(j)),
    decreases fields.len(),
{
    if j == fields.len() {
        assert(fields.take(j) =~= fields);
    } else {
        assert(fields.drop_last().take(j) =~= fields.take(j));
        lemma_key_texts_stop(data, fields.drop_last(), j);
    }
}

/// The change kind and key a document gives, or why it gives none.
pub open spec fn spec_parse_document<K: ParseValue>(
    data: JsonValue,
    fields: Seq<String>,
    sep: Seq<char>,
    rules: Seq<ChangeTypeRule>,
) -> Option<(ChangeType, K::V)> {
    match spec_key(data, fields, sep) {
        Ok(k) => match K::spec_parse_value(k) {
            Some(kv) => Some((spec_change_type_of(data, rules), kv)),
            None => None,
        },
        Err(_) => None,
    }
}

impl<K: ParseValue, V> JsonParser<K, V> {
    /// The change kind and key of a document.
    pub fn parse_document(&self, data: &JsonValue) -> (r: Result<(ChangeType, K), ParserError>)
        ensures
            match spec_parse_document::<K>(*data, self.spec_key_fields(), self.spec_key_separator(), self.spec_rules()) {
                Some((ct, kv)) => r matches Ok((c, k)) && c == ct && k@ == kv,
                None => r is Err,
            },
    {
        let key_text = match self.generate_key(data) {
            Ok(k) => k,
            Err(e) => return Err(e),
        };
        let key = match K::parse_value(key_text.as_str()) {
            Ok(k) => k,
            Err(e) => {
                let mut m = "failed to parse key: ".to_owned();
                let t = e.message();
                push_str(&mut m, t.as_str());
                return Err(ParserError::ParseFailed(m));
            },
        };
        Ok((self.determine_change_type(data), key))
    }

    /// Whether `e` is why parsing the record `buf` fails: the bytes are no JSON text;
    /// or the document nests deeper than the parser reads; or the document gives no
    /// key; or it does, and reading the whole document as the value type failed.
    pub open spec fn parse_failure(&self, buf: Seq<u8>, e: ParserError) -> bool {
        ||| !json_parses(buf) && (e matches ParserError::ParseFailed(m) && exists|t: Seq<char>| m@ == #[trigger] ("failed to parse JSON: "@ + t))
        ||| json_parses(buf) && (e matches ParserError::ParseFailed(m) && m@ == too_deep_json_message())
            && forall|d: JsonValue| #[trigger] json_fits(buf, Seq::empty(), d) ==> !nested_within(d, MAX_JSON_DEPTH as nat)
        ||| exists|d: JsonValue| #[trigger] json_document_fits(buf, d)
            && spec_parse_document::<K>(d, self.spec_key_fields(), self.spec_key_separator(), self.spec_rules()) is None
        ||| exists|d: JsonValue| #[trigger] json_document_fits(buf, d)
            && spec_parse_document::<K>(d, self.spec_key_fields(), self.spec_key_separator(), self.spec_rules()) is Some
            && (e matches ParserError::ParseFailed(m) && exists|t: Seq<char>| m@ == #[trigger] ("failed to deserialize value: "@ + t))
    }

    /// Parses a JSON record: the key and change kind from the document the bytes hold,
    /// the value by reading the whole document as `V`.
    pub fn parse(&self, buf: &[u8]) -> (r: Result<(ChangeType, K, V), ParserError>)
        where
            V: serde::de::DeserializeOwned,
        ensures
            !json_parses(buf@) ==> (r matches Err(ParserError::ParseFailed(m))
                && exists|t: Seq<char>| m@ == #[trigger] ("failed to parse JSON: "@ + t)),
            r matches Ok((ct, k, _)) ==> exists|d: JsonValue| #[trigger] json_document_fits(buf@, d)
                && spec_parse_document::<K>(d, self.spec_key_fields(), self.spec_key_separator(), self.spec_rules())
                    == Some((ct, k@)),
            r matches Err(e) ==> self.parse_failure(buf@, e),
    {
        let data = match read_document(buf) {
            Ok(d) => d,
            Err(e) => return Err(e),
        };
        let (ct, key) = match self.parse_document(&data) {
            Ok(p) => p,
            Err(e) => {
                assert(json_document_fits(buf@, data));
                return Err(e);
            },
        };
        assert(json_document_fits(buf@, data));
        let value: V = match json_from_slice(buf) {
            Ok(v) => v,
            Err(t) => {
                let mut m = "failed to deserialize value: ".to_owned();
                push_str(&mut m, t.as_str());
                return Err(ParserError::ParseFailed(m));
            },
        };
        Ok((ct, key, value))
    }
}

} // verus!
