//! The serializer interface and its error.

use vstd::prelude::*;

verus! {

/// A value could not be turned into bytes, or bytes into a value.
#[derive(Debug, Clone)]
pub enum SerializerError {
    SerializationFailed(String),
    DeserializationFailed(String),
}

impl SerializerError {
    /// The text of the error.
    pub fn message(&self) -> (s: String)
        ensures
            s@ == self.spec_message(),
    {
        match self {
            SerializerError::SerializationFailed(m) => {
                let mut s = "Serialization failed: ".to_owned();
                s.append(m.as_str());
                s
            },
            SerializerError::DeserializationFailed(m) => {
                let mut s = "Deserialization failed: ".to_owned();
                s.append(m.as_str());
                s
            },
        }
    }

    pub open spec fn spec_message(&self) -> Seq<char> {
        match self {
            SerializerError::SerializationFailed(m) => "Serialization failed: "@ + m@,
            SerializerError::DeserializationFailed(m) => "Deserialization failed: "@ + m@,
        }
    }
}

/// Turns values of `F` into values of `T` and back.
pub trait Serializer<F, T> {
    /// `from` in the target form.
    fn serialize(&self, from: F) -> (r: Result<T, SerializerError>)
        ensures
            r matches Err(e) ==> e is SerializationFailed,
    ;

    /// The value `to` holds.
    fn deserialize(&self, to: T) -> (r: Result<F, SerializerError>)
        ensures
            r matches Err(e) ==> e is DeserializationFailed,
    ;
}

} // verus!
