//! Values as BSON documents in bytes, through `bson`.

use vstd::prelude::*;

use super::api::SerializerError;

verus! {

#[verifier::external_type_specification]
#[verifier::external_body]
pub struct ExBsonDocument(bson::Document);

/// `bson::to_document`; a failure carries the error's text. The document rests on
/// `T`'s own serialization, so nothing is said of it.
#[verifier::external_body]
fn to_document<T: serde::Serialize>(value: &T) -> (r: Result<bson::Document, String>) {
    match bson::to_document(value) {
        Ok(d) => Ok(d),
        Err(e) => Err(e.to_string()),
    }
}

/// `bson::Document::to_writer` into a new byte vector; a failure carries the error's text.
#[verifier::external_body]
fn document_bytes(doc: &bson::Document) -> (r: Result<Vec<u8>, String>) {
    let mut buf: Vec<u8> = Vec::new();
    match doc.to_writer(&mut buf) {
        Ok(()) => Ok(buf),
        Err(e) => Err(e.to_string()),
    }
}

/// `bson::Document::from_reader` over the bytes; a failure carries the error's text.
#[verifier::external_body]
fn document_from_bytes(bytes: &[u8]) -> (r: Result<bson::Document, String>) {
    match bson::Document::from_reader(bytes) {
        Ok(d) => Ok(d),
        Err(e) => Err(e.to_string()),
    }
}

/// `bson::from_document`; a failure carries the error's text. The value rests on
/// `T`'s own deserialization, so nothing is said of it.
#[verifier::external_body]
fn from_document<T: serde::de::DeserializeOwned>(doc: bson::Document) -> (r: Result<T, String>) {
    match bson::from_document(doc) {
        Ok(v) => Ok(v),
        Err(e) => Err(e.to_string()),
    }
}

/// Configuration of a `BsonSerializer`; it has no settings.
#[derive(Debug, Clone, PartialEq, Eq, Structural)]
pub struct BsonSerializerConfig {}

impl Default for BsonSerializerConfig {
    fn default() -> (c: Self) {
        BsonSerializerConfig {}
    }
}

/// Turns values into BSON bytes and back; a value must serialize as a document.
pub struct BsonSerializer<T> {
    _phantom: std::marker::PhantomData<T>,
}

impl<T> BsonSerializer<T> {
    /// A serializer; the configuration has no settings.
    pub fn new(config: BsonSerializerConfig) -> (s: Self) {
        BsonSerializer { _phantom: std::marker::PhantomData }
    }

    /// `from` as a BSON document, in bytes.
    pub fn serialize(&self, from: T) -> (r: Result<Vec<u8>, SerializerError>)
        where
            T: serde::Serialize,
        ensures
            r matches Err(e) ==> e is SerializationFailed,
    {
        let doc = match to_document(&from) {
            Ok(d) => d,
            Err(m) => return Err(SerializerError::SerializationFailed(m)),
        };
        match document_bytes(&doc) {
            Ok(b) => Ok(b),
            Err(m) => Err(SerializerError::SerializationFailed(m)),
        }
    }

    /// The value the BSON bytes `to` hold.
    pub fn deserialize(&self, to: Vec<u8>) -> (r: Result<T, SerializerError>)
        where
            T: serde::de::DeserializeOwned,
        ensures
            r matches Err(e) ==> e is DeserializationFailed,
    {
        let doc = match document_from_bytes(to.as_slice()) {
            Ok(d) => d,
            Err(m) => return Err(SerializerError::DeserializationFailed(m)),
        };
        match from_document(doc) {
            Ok(v) => Ok(v),
            Err(m) => Err(SerializerError::DeserializationFailed(m)),
        }
    }
}

} // verus!
