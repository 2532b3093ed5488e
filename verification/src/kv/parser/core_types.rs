//! The change kinds of loaded records, the parse error, and the parser interface.

use vstd::prelude::*;

verus! {

/// The kind of change a record carries.
#[derive(Debug, Clone, Copy, PartialEq, Eq, Structural)]
pub enum ChangeType {
    Unknown,
    Add,
    Update,
    Delete,
}

impl Default for ChangeType {
    fn default() -> (c: Self)
        ensures
            c == ChangeType::Unknown,
    {
        ChangeType::Unknown
    }
}

impl ChangeType {
    /// The number of the kind: 0 unknown, 1 add, 2 update, 3 delete.
    pub fn code(&self) -> (n: i32)
        ensures
            n == self.spec_code(),
    {
        match self {
            ChangeType::Unknown => 0,
            ChangeType::Add => 1,
            ChangeType::Update => 2,
            ChangeType::Delete => 3,
        }
    }

    pub open spec fn spec_code(&self) -> i32 {
        match self {
            ChangeType::Unknown => 0,
            ChangeType::Add => 1,
            ChangeType::Update => 2,
            ChangeType::Delete => 3,
        }
    }
}

/// A record could not be parsed.
#[derive(Debug, Clone)]
pub enum ParserError {
    ParseFailed(String),
}

impl ParserError {
    /// The text of the error.
    pub fn message(&self) -> (s: String)
        ensures
            s@ == self.spec_message(),
    {
        match self {
            ParserError::ParseFailed(m) => {
                let mut s = "Parse failed: ".to_owned();
                s.append(m.as_str());
                s
            },
        }
    }

    pub open spec fn spec_message(&self) -> Seq<char> {
        match self {
            ParserError::ParseFailed(m) => "Parse failed: "@ + m@,
        }
    }
}

/// Parses one record into its change kind, key and value.
pub trait Parser<K: View, V: View> {
    /// The record `buf` holds, if it holds one.
    spec fn spec_parse(&self, buf: Seq<u8>) -> Option<(ChangeType, K::V, V::V)>;

    /// Parses `buf`.
    fn parse(&self, buf: &[u8]) -> (r: Result<(ChangeType, K, V), ParserError>)
        ensures
            match r {
                Ok((ct, k, v)) => self.spec_parse(buf@) == Some((ct, k@, v@)),
                Err(_) => self.spec_parse(buf@) is None,
            },
    ;
}

} // verus!
