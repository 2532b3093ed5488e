//! Protocol Buffers messages as bytes, through `prost`.

use vstd::prelude::*;

use super::api::SerializerError;

verus! {

/// `prost::Message::encode` into a new byte vector, which grows as needed; a failure
/// carries the error's text. The bytes rest on the message's own encoding, so nothing
/// is said of them.
#[verifier::external_body]
fn encode_message<T: prost::Message>(value: &T) -> (r: Result<Vec<u8>, String>) {
    let mut buf: Vec<u8> = Vec::new();
    match value.encode(&mut buf) {
        Ok(()) => Ok(buf),
        Err(e) => Err(e.to_string()),
    }
}

/// `prost::Message::decode`; a failure carries the error's text.
#[verifier::external_body]
fn decode_message<T: prost::Message + Default>(bytes: &[u8]) -> (r: Result<T, String>) {
    match T::decode(bytes) {
        Ok(v) => Ok(v),
        Err(e) => Err(e.to_string()),
    }
}

/// Configuration of a `ProtobufSerializer`; it has no settings.
#[derive(Debug, Clone, PartialEq, Eq, Structural)]
pub struct ProtobufSerializerConfig {}

impl Default for ProtobufSerializerConfig {
    fn default() -> (c: Self) {
        ProtobufSerializerConfig {}
    }
}

/// Turns Protocol Buffers messages into bytes and back.
pub struct ProtobufSerializer<T> {
    _phantom: std::marker::PhantomData<T>,
}

impl<T> ProtobufSerializer<T> {
    /// A serializer; the configuration has no settings.
    pub fn new(config: ProtobufSerializerConfig) -> (s: Self) {
        ProtobufSerializer { _phantom: std::marker::PhantomData }
    }

    /// The encoding of the message `from`.
    pub fn serialize(&self, from: T) -> (r: Result<Vec<u8>, SerializerError>)
        where
            T: prost::Message,
        ensures
            r matches Err(e) ==> e is SerializationFailed,
    {
        match encode_message(&from) {
            Ok(b) => Ok(b),
            Err(m) => Err(SerializerError::SerializationFailed(m)),
        }
    }

    /// The message the bytes `to` encode.
    pub fn deserialize(&self, to: Vec<u8>) -> (r: Result<T, SerializerError>)
        where
            T: prost::Message + Default,
        ensures
            r matches Err(e) ==> e is DeserializationFailed,
    {
        match decode_message(to.as_slice()) {
            Ok(v) => Ok(v),
            Err(m) => Err(SerializerError::DeserializationFailed(m)),
        }
    }
}

} // verus!
