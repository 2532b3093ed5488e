//! Values as MessagePack bytes, through `rmp_serde`.

use vstd::prelude::*;

use super::api::SerializerError;

verus! {

/// `rmp_serde::to_vec_named`: struct fields written with their names; a failure
/// carries the error's text. The bytes rest on `T`'s own serialization, so nothing is
/// said of them.
#[verifier::external_body]
fn msgpack_to_vec_named<T: serde::Serialize>(value: &T) -> (r: Result<Vec<u8>, String>) {
    match rmp_serde::to_vec_named(value) {
        Ok(b) => Ok(b),
        Err(e) => Err(e.to_string()),
    }
}

/// `rmp_serde::to_vec`: struct fields written by position; a failure carries the
/// error's text. The bytes rest on `T`'s own serialization, so nothing is said of them.
#[verifier::external_body]
fn msgpack_to_vec<T: serde::Serialize>(value: &T) -> (r: Result<Vec<u8>, String>) {
    match rmp_serde::to_vec(value) {
        Ok(b) => Ok(b),
        Err(e) => Err(e.to_string()),
    }
}

/// Whether `rmp_serde::to_vec_named` may write `value` as `bytes` (struct fields with
/// their names).
pub closed spec fn named_encoding<T: serde::Serialize>(value: T, bytes: Seq<u8>) -> bool {
    exists|b: Vec<u8>| b@ == bytes && call_ensures(msgpack_to_vec_named::<T>, (&value,), Ok::<Vec<u8>, String>(b))
}

/// Whether `rmp_serde::to_vec` may write `value` as `bytes` (struct fields by position).
pub closed spec fn positional_encoding<T: serde::Serialize>(value: T, bytes: Seq<u8>) -> bool {
    exists|b: Vec<u8>| b@ == bytes && call_ensures(msgpack_to_vec::<T>, (&value,), Ok::<Vec<u8>, String>(b))
}

/// `rmp_serde::from_slice`; a failure carries the error's text.
#[verifier::external_body]
fn msgpack_from_slice<T: serde::de::DeserializeOwned>(bytes: &[u8]) -> (r: Result<T, String>) {
    match rmp_serde::from_slice(bytes) {
        Ok(v) => Ok(v),
        Err(e) => Err(e.to_string()),
    }
}

/// Configuration of a `MsgPackSerializer`.
#[derive(Debug, Clone, PartialEq, Eq, Structural)]
pub struct MsgPackSerializerConfig {
    /// Whether struct fields are written with their names.
    pub named: bool,
}

impl Default for MsgPackSerializerConfig {
    fn default() -> (c: Self)
        ensures
            c.named,
    {
        MsgPackSerializerConfig { named: true }
    }
}

/// Turns values into MessagePack bytes and back.
pub struct MsgPackSerializer<T> {
    config: MsgPackSerializerConfig,
    _phantom: std::marker::PhantomData<T>,
}

impl<T> MsgPackSerializer<T> {
    /// A serializer with the given configuration.
    pub fn new(config: MsgPackSerializerConfig) -> (s: Self)
        ensures
            s.spec_config() == config,
    {
        MsgPackSerializer { config, _phantom: std::marker::PhantomData }
    }

    pub closed spec fn spec_config(&self) -> MsgPackSerializerConfig {
        self.config
    }

    /// `from` as MessagePack bytes.
    pub fn serialize(&self, from: T) -> (r: Result<Vec<u8>, SerializerError>)
        where
            T: serde::Serialize,
        ensures
            r matches Err(e) ==> e is SerializationFailed,
            r matches Ok(b) ==> (if self.spec_config().named {
                named_encoding(from, b@)
            } else {
                positional_encoding(from, b@)
            }),
    {
        let out = if self.config.named {
            msgpack_to_vec_named(&from)
        } else {
            msgpack_to_vec(&from)
        };
        match out {
            Ok(b) => Ok(b),
            Err(m) => Err(SerializerError::SerializationFailed(m)),
        }
    }

    /// The value the MessagePack bytes `to` hold.
    pub fn deserialize(&self, to: Vec<u8>) -> (r: Result<T, SerializerError>)
        where
            T: serde::de::DeserializeOwned,
        ensures
            r matches Err(e) ==> e is DeserializationFailed,
    {
        match msgpack_from_slice(to.as_slice()) {
            Ok(v) => Ok(v),
            Err(m) => Err(SerializerError::DeserializationFailed(m)),
        }
    }
}

/// A serializer configured with names writes a value as `rmp_serde::to_vec_named`
/// writes it, field names included; one without writes it as `rmp_serde::to_vec`
/// does, fields by position.
pub proof fn law_msgpack_encoding_follows_config<T: serde::Serialize>(s: MsgPackSerializer<T>, from: T, b: Vec<u8>)
    requires
        call_ensures(MsgPackSerializer::<T>::serialize, (&s, from), Ok::<Vec<u8>, SerializerError>(b)),
    ensures
        s.spec_config().named ==> named_encoding(from, b@),
        !s.spec_config().named ==> positional_encoding(from, b@),
{
}

} // verus!
