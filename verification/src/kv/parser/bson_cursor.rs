//! Reading a BSON document with `bson`, one level at a time: a cursor stands at a place
//! in the document read from the bytes, named by the bytes and the path of positions
//! that leads there. Only the functions of this module make cursors, so a cursor's
//! value is always the one its bytes and path name.

use vstd::prelude::*;

verus! {

#[verifier::external_type_specification]
#[verifier::external_body]
pub struct ExBson(bson::Bson);

/// One level of a BSON value: its variant; a double as its IEEE-754 bits and the text
/// Rust writes for it; a string; an array's number of items or a document's keys in
/// order, with the value's `Debug` text; any other kind by its `Debug` text.
#[derive(Debug)]
pub enum BsonNode {
    Null,
    Boolean(bool),
    Int32(i32),
    Int64(i64),
    Double(u64, String),
    Str(String),
    Array(usize, String),
    Document(Vec<String>, String),
    Other(String),
}

/// Whether `bson::from_slice` reads the bytes as a `bson::Document`, which depends on
/// the bytes alone.
pub uninterp spec fn bson_parses(bytes: Seq<u8>) -> bool;

/// The document `bson` reads from `bytes`, as a value, at `path` (each step the
/// position of an item in an array, or of a member in a document's order), one level
/// deep. It depends on the bytes and the path alone.
pub uninterp spec fn bson_node_at(bytes: Seq<u8>, path: Seq<usize>) -> BsonNode;

/// Whether the value at a place with node `node` has an item or member at position `i`.
pub open spec fn has_child(node: BsonNode, i: usize) -> bool {
    match node {
        BsonNode::Array(n, _) => i < n,
        BsonNode::Document(keys, _) => i < keys@.len(),
        _ => false,
    }
}

/// A place in the document read from some bytes.
pub struct BsonCursor {
    bytes: std::rc::Rc<Vec<u8>>,
    path: Vec<usize>,
    value: bson::Bson,
}

impl BsonCursor {
    /// The bytes the document was read from.
    pub closed spec fn spec_bytes(&self) -> Seq<u8> {
        self.bytes@
    }

    /// The positions that lead from the top of the document to this place.
    pub closed spec fn spec_path(&self) -> Seq<usize> {
        self.path@
    }
}

/// `bson::from_slice` into a `bson::Document`: it succeeds exactly on the bytes it
/// reads as one document, and gives a cursor at the top, a document; a failure carries
/// the error's text.
#[verifier::external_body]
pub(crate) fn bson_root(bytes: &[u8]) -> (r: Result<BsonCursor, String>)
    ensures
        r is Ok <==> bson_parses(bytes@),
        r matches Ok(c) ==> c.spec_bytes() == bytes@ && c.spec_path() == Seq::<usize>::empty()
            && bson_node_at(bytes@, Seq::empty()) is Document,
{
    match bson::from_slice::<bson::Document>(bytes) {
        Ok(d) => Ok(BsonCursor { bytes: std::rc::Rc::new(bytes.to_vec()), path: Vec::new(), value: bson::Bson::Document(d) }),
        Err(e) => Err(e.to_string()),
    }
}

/// The value at `c`, one level deep: one arm per variant of `bson::Bson` the parser
/// tells apart, the others together; texts with `Display` and `Debug`.
#[verifier::external_body]
pub(crate) fn bson_node(c: &BsonCursor) -> (r: BsonNode)
    ensures
        r == bson_node_at(c.spec_bytes(), c.spec_path()),
{
    match &c.value {
        bson::Bson::Null => BsonNode::Null,
        bson::Bson::Boolean(b) => BsonNode::Boolean(*b),
        bson::Bson::Int32(n) => BsonNode::Int32(*n),
        bson::Bson::Int64(n) => BsonNode::Int64(*n),
        bson::Bson::Double(x) => BsonNode::Double(x.to_bits(), x.to_string()),
        bson::Bson::String(s) => BsonNode::Str(s.clone()),
        bson::Bson::Array(a) => BsonNode::Array(a.len(), format!("{:?}", c.value)),
        bson::Bson::Document(d) => BsonNode::Document(d.keys().cloned().collect(), format!("{:?}", c.value)),
        other => BsonNode::Other(format!("{:?}", other)),
    }
}

/// A copy of the value at `c` (`Clone`).
#[verifier::external_body]
pub(crate) fn bson_value(c: &BsonCursor) -> (r: bson::Bson) {
    c.value.clone()
}

/// The cursor at item or member `i` (members in the document's order) of the value at `c`.
#[verifier::external_body]
pub(crate) fn bson_child(c: &BsonCursor, i: usize) -> (r: BsonCursor)
    requires
        has_child(bson_node_at(c.spec_bytes(), c.spec_path()), i),
    ensures
        r.spec_bytes() == c.spec_bytes(),
        r.spec_path() == c.spec_path().push(i),
{
    let value = match &c.value {
        bson::Bson::Array(a) => a[i].clone(),
        bson::Bson::Document(d) => d.values().nth(i).cloned().unwrap_or(bson::Bson::Null),
        other => other.clone(),
    };
    let mut path = c.path.clone();
    path.push(i);
    BsonCursor { bytes: std::rc::Rc::clone(&c.bytes), path, value }
}

} // verus!
