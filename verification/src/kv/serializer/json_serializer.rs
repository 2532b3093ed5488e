//! Values as JSON bytes, through `serde_json`.

use vstd::prelude::*;

use super::api::SerializerError;

verus! {

/// `serde_json::to_vec`: compact JSON; a failure carries the error's text. What the
/// bytes are rests on `T`'s own serialization, so nothing is said of them.
#[verifier::external_body]
fn json_to_vec<T: serde::Serialize>(value: &T) -> (r: Result<Vec<u8>, String>) {
    match serde_json::to_vec(value) {
        Ok(b) => Ok(b),
        Err(e) => Err(e.to_string()),
    }
}

/// `serde_json::to_vec_pretty`: indented JSON; a failure carries the error's text.
/// What the bytes are rests on `T`'s own serialization, so nothing is said of them.
#[verifier::external_body]
fn json_to_vec_pretty<T: serde::Serialize>(value: &T) -> (r: Result<Vec<u8>, String>) {
    match serde_json::to_vec_pretty(value) {
        Ok(b) => Ok(b),
        Err(e) => Err(e.to_string()),
    }
}

/// Whether `serde_json::to_vec_pretty` may write `value` as `bytes` (indented).
pub closed spec fn pretty_encoding<T: serde::Serialize>(value: T, bytes: Seq<u8>) -> bool {
    exists|b: Vec<u8>| b@ == bytes && call_ensures(json_to_vec_pretty::<T>, (&value,), Ok::<Vec<u8>, String>(b))
}

/// Whether `serde_json::to_vec` may write `value` as `bytes` (compact).
pub closed spec fn compact_encoding<T: serde::Serialize>(value: T, bytes: Seq<u8>) -> bool {
    exists|b: Vec<u8>| b@ == bytes && call_ensures(json_to_vec::<T>, (&value,), Ok::<Vec<u8>, String>(b))
}

/// `serde_json::from_slice`; a failure carries the error's text. What the value is
/// rests on `T`'s own deserialization, so nothing is said of it.
#[verifier::external_body]
pub(crate) fn json_from_slice<T: serde::de::DeserializeOwned>(bytes: &[u8]) -> (r: Result<T, String>) {
    match serde_json::from_slice(bytes) {
        Ok(v) => Ok(v),
        Err(e) => Err(e.to_string()),
    }
}

/// Configuration of a `JsonSerializer`.
#[derive(Debug, Clone, PartialEq, Eq, Structural)]
pub struct JsonSerializerConfig {
    /// Whether the JSON is indented.
    pub pretty: bool,
}

impl Default for JsonSerializerConfig {
    fn default() -> (c: Self)
        ensures
            !c.pretty,
    {
        JsonSerializerConfig { pretty: false }
    }
}

/// Turns values into JSON bytes and back.
pub struct JsonSerializer<T> {
    config: JsonSerializerConfig,
    _phantom: std::marker::PhantomData<T>,
}

impl<T> JsonSerializer<T> {
    /// A serializer with the given configuration.
    pub fn new(config: JsonSerializerConfig) -> (s: Self)
        ensures
            s.spec_config() == config,
    {
        JsonSerializer { config, _phantom: std::marker::PhantomData }
    }

    pub closed spec fn spec_config(&self) -> JsonSerializerConfig {
        self.config
    }
}

impl<T> JsonSerializer<T> {
    /// `from` as JSON bytes, indented when so configured.
    pub fn serialize(&self, from: T) -> (r: Result<Vec<u8>, SerializerError>)
        where
            T: serde::Serialize,
        ensures
            r matches Err(e) ==> e is SerializationFailed,
            r matches Ok(b) ==> (if self.spec_config().pretty {
                pretty_encoding(from, b@)
            } else {
                compact_encoding(from, b@)
            }),
    {
        let out = if self.config.pretty {
            json_to_vec_pretty(&from)
        } else {
            json_to_vec(&from)
        };
        match out {
            Ok(b) => Ok(b),
            Err(m) => Err(SerializerError::SerializationFailed(m)),
        }
    }

    /// The value the JSON bytes `to` hold.
    pub fn deserialize(&self, to: Vec<u8>) -> (r: Result<T, SerializerError>)
        where
            T: serde::de::DeserializeOwned,
        ensures
            r matches Err(e) ==> e is DeserializationFailed,
    {
        match json_from_slice(to.as_slice()) {
            Ok(v) => Ok(v),
            Err(m) => Err(SerializerError::DeserializationFailed(m)),
        }
    }
}

/// A serializer configured as pretty writes a value as `serde_json::to_vec_pretty`
/// writes it; one not, as `serde_json::to_vec` does.
pub proof fn law_json_encoding_follows_config<T: serde::Serialize>(s: JsonSerializer<T>, from: T, b: Vec<u8>)
    requires
        call_ensures(JsonSerializer::<T>::serialize, (&s, from), Ok::<Vec<u8>, SerializerError>(b)),
    ensures
        s.spec_config().pretty ==> pretty_encoding(from, b@),
        !s.spec_config().pretty ==> compact_encoding(from, b@),
{
}

} // verus!
