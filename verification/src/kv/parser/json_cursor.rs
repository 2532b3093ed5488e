//! Reading a JSON text with `serde_json`, one level at a time: a cursor stands at a
//! place in the value read from the text, named by the text and the path of positions
//! that leads there. Only the functions of this module make cursors, so a cursor's
//! value is always the one its text and path name.

use vstd::prelude::*;

verus! {

#[verifier::external_type_specification]
#[verifier::external_body]
pub struct ExJsonValue(serde_json::Value);

/// One level of a JSON value: its variant; for a number, `as_i64`, `as_u64`, and
/// `as_f64` as its IEEE-754 bits and the text Rust writes for it; a string; an array's
/// number of items or an object's keys in order, with the value's compact JSON text.
#[derive(Debug)]
pub enum JsonNode {
    Null,
    Bool(bool),
    Number(Option<i64>, Option<u64>, Option<u64>, Option<String>),
    Str(String),
    Array(usize, String),
    Object(Vec<String>, String),
}

/// Whether `serde_json::from_slice` reads the bytes as a `serde_json::Value`: whether
/// they are one JSON text within the reader's recursion limit, which depends on the
/// bytes alone.
pub uninterp spec fn json_parses(bytes: Seq<u8>) -> bool;

/// The value `serde_json` reads from `text`, at `path` (each step the position of an
/// item in an array, or of a member in an object's order), one level deep. It depends
/// on the text and the path alone.
pub uninterp spec fn json_node_at(text: Seq<u8>, path: Seq<usize>) -> JsonNode;

/// Whether the value at a place with node `node` has an item or member at position `i`.
pub open spec fn has_child(node: JsonNode, i: usize) -> bool {
    match node {
        JsonNode::Array(n, _) => i < n,
        JsonNode::Object(keys, _) => i < keys@.len(),
        _ => false,
    }
}

/// A place in the JSON value read from a text.
pub struct JsonCursor {
    text: std::rc::Rc<Vec<u8>>,
    path: Vec<usize>,
    value: serde_json::Value,
}

impl JsonCursor {
    /// The text the value was read from.
    pub closed spec fn spec_text(&self) -> Seq<u8> {
        self.text@
    }

    /// The positions that lead from the top of the value to this place.
    pub closed spec fn spec_path(&self) -> Seq<usize> {
        self.path@
    }
}

/// `serde_json::from_slice` into a `serde_json::Value`: it succeeds exactly on the
/// bytes it reads as one JSON text, and gives a cursor at the top of the value; a
/// failure carries the error's text.
#[verifier::external_body]
pub(crate) fn json_root(bytes: &[u8]) -> (r: Result<JsonCursor, String>)
    ensures
        r is Ok <==> json_parses(bytes@),
        r matches Ok(c) ==> c.spec_text() == bytes@ && c.spec_path() == Seq::<usize>::empty(),
{
    match serde_json::from_slice(bytes) {
        Ok(value) => Ok(JsonCursor { text: std::rc::Rc::new(bytes.to_vec()), path: Vec::new(), value }),
        Err(e) => Err(e.to_string()),
    }
}

/// The value at `c`, one level deep: one arm per variant of `serde_json::Value`, the
/// number read with `as_i64`, `as_u64` and `as_f64`, the text with `Display`.
#[verifier::external_body]
pub(crate) fn json_node(c: &JsonCursor) -> (r: JsonNode)
    ensures
        r == json_node_at(c.spec_text(), c.spec_path()),
{
    match &c.value {
        serde_json::Value::Null => JsonNode::Null,
        serde_json::Value::Bool(b) => JsonNode::Bool(*b),
        serde_json::Value::Number(n) => match n.as_f64() {
            Some(x) => JsonNode::Number(n.as_i64(), n.as_u64(), Some(x.to_bits()), Some(x.to_string())),
            None => JsonNode::Number(n.as_i64(), n.as_u64(), None, None),
        },
        serde_json::Value::String(s) => JsonNode::Str(s.clone()),
        serde_json::Value::Array(a) => JsonNode::Array(a.len(), c.value.to_string()),
        serde_json::Value::Object(m) => JsonNode::Object(m.keys().cloned().collect(), c.value.to_string()),
    }
}

/// The cursor at item or member `i` (members in the object's order) of the value at `c`.
#[verifier::external_body]
pub(crate) fn json_child(c: &JsonCursor, i: usize) -> (r: JsonCursor)
    requires
        has_child(json_node_at(c.spec_text(), c.spec_path()), i),
    ensures
        r.spec_text() == c.spec_text(),
        r.spec_path() == c.spec_path().push(i),
{
    let value = match &c.value {
        serde_json::Value::Array(a) => a[i].clone(),
        serde_json::Value::Object(m) => m.values().nth(i).cloned().unwrap_or_default(),
        other => other.clone(),
    };
    let mut path = c.path.clone();
    path.push(i);
    JsonCursor { text: std::rc::Rc::clone(&c.text), path, value }
}

} // verus!
