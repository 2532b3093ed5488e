//! Log records and the values they carry beside the message.

use vstd::prelude::*;

use crate::text::{decimal, i64_to_decimal, push_str, signed_decimal, u64_to_decimal};
use super::level::LogLevel;

verus! {

/// A value attached to a log record under a key.
#[derive(Debug, Clone)]
pub enum MetadataValue {
    String(String),
    I64(i64),
    U64(u64),
    /// A floating-point number, held as the decimal text Rust writes for it.
    F64(String),
    Bool(bool),
    Null,
    /// JSON data, held as its compact text.
    Json(String),
    /// A structure rendered as JSON, held as its compact text.
    Struct(String),
}

/// `serde_json::to_value`, rendered as compact JSON text (the `Display` of the value);
/// `None` when serialization fails. The text rests on `T`'s own serialization, so
/// nothing is said of it.
#[verifier::external_body]
fn json_value_text<T: serde::Serialize>(value: T) -> (r: Option<String>) {
    match serde_json::to_value(value) {
        Ok(v) => Some(v.to_string()),
        Err(_) => None,
    }
}

impl MetadataValue {
    /// A structure as a value: its JSON form, or null when it cannot be serialized.
    pub fn from_struct<T: serde::Serialize>(value: T) -> (r: Self)
        ensures
            r is Struct || r is Null,
    {
        match json_value_text(value) {
            Some(t) => MetadataValue::Struct(t),
            None => MetadataValue::Null,
        }
    }
}

impl MetadataValue {
    /// The text of the value as log lines show it; JSON data is quoted with '.
    pub open spec fn spec_text(&self) -> Seq<char> {
        match self {
            MetadataValue::String(s) => s@,
            MetadataValue::I64(n) => signed_decimal(*n as int),
            MetadataValue::U64(n) => decimal(*n as nat),
            MetadataValue::F64(t) => t@,
            MetadataValue::Bool(b) => if *b {
                "true"@
            } else {
                "false"@
            },
            MetadataValue::Null => "null"@,
            MetadataValue::Json(t) => "'"@ + t@ + "'"@,
            MetadataValue::Struct(t) => "'"@ + t@ + "'"@,
        }
    }

    /// The text of the value as log lines show it.
    pub fn to_string(&self) -> (s: String)
        ensures
            s@ == self.spec_text(),
    {
        match self {
            MetadataValue::String(s) => s.clone(),
            MetadataValue::I64(n) => i64_to_decimal(*n),
            MetadataValue::U64(n) => u64_to_decimal(*n),
            MetadataValue::F64(t) => t.clone(),
            MetadataValue::Bool(b) => if *b {
                "true".to_owned()
            } else {
                "false".to_owned()
            },
            MetadataValue::Null => "null".to_owned(),
            MetadataValue::Json(t) | MetadataValue::Struct(t) => {
                let mut s = "'".to_owned();
                push_str(&mut s, t.as_str());
                push_str(&mut s, "'");
                s
            },
        }
    }
}

/// One log message with its level, origin, time and attached values.
pub struct LogRecord {
    pub level: LogLevel,
    pub message: String,
    /// The module the message comes from.
    pub module: Option<String>,
    /// The source file the message comes from.
    pub file: Option<String>,
    /// The line of the source file.
    pub line: Option<u32>,
    /// When the message was made, in milliseconds since 1970-01-01T00:00:00Z.
    pub timestamp_ms: i64,
    /// The thread the message comes from.
    pub thread_id: String,
    /// The attached values, in the order they were added.
    pub metadata: Vec<(String, MetadataValue)>,
}

impl LogRecord {
    /// A record without origin or attached values.
    pub fn new(level: LogLevel, message: String, timestamp_ms: i64, thread_id: String) -> (r: Self)
        ensures
            r.level == level,
            r.message == message,
            r.module is None,
            r.file is None,
            r.line is None,
            r.timestamp_ms == timestamp_ms,
            r.thread_id == thread_id,
            r.metadata@.len() == 0,
    {
        LogRecord { level, message, module: None, file: None, line: None, timestamp_ms, thread_id, metadata: Vec::new() }
    }

    /// The same record with one more value, after the others.
    pub fn with_metadata(self, key: String, value: MetadataValue) -> (r: Self)
        ensures
            r.metadata@ == self.metadata@.push((key, value)),
            r.level == self.level,
            r.message == self.message,
            r.module == self.module,
            r.file == self.file,
            r.line == self.line,
            r.timestamp_ms == self.timestamp_ms,
            r.thread_id == self.thread_id,
    {
        let mut r = self;
        r.metadata.push((key, value));
        r
    }

    /// The same record with its source file and line.
    pub fn with_location(self, file: String, line: u32) -> (r: Self)
        ensures
            r.file == Some(file),
            r.line == Some(line),
            r.metadata == self.metadata,
            r.level == self.level,
            r.message == self.message,
            r.module == self.module,
            r.timestamp_ms == self.timestamp_ms,
            r.thread_id == self.thread_id,
    {
        let mut r = self;
        r.file = Some(file);
        r.line = Some(line);
        r
    }

    /// The same record with its module.
    pub fn with_module(self, module: String) -> (r: Self)
        ensures
            r.module == Some(module),
            r.file == self.file,
            r.line == self.line,
            r.metadata == self.metadata,
            r.level == self.level,
            r.message == self.message,
            r.timestamp_ms == self.timestamp_ms,
            r.thread_id == self.thread_id,
    {
        let mut r = self;
        r.module = Some(module);
        r
    }
}

} // verus!
