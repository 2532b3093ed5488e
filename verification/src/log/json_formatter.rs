//! The JSON form of log records: the formatter and its configuration.

use vstd::prelude::*;

verus! {

/// Configuration of a `JsonFormatter`; it has no settings.
#[derive(Debug, Clone, PartialEq, Eq, Structural)]
pub struct JsonFormatterConfig {}

impl Default for JsonFormatterConfig {
    fn default() -> (c: Self) {
        JsonFormatterConfig {}
    }
}

/// Writes log records as one JSON object each.
pub struct JsonFormatter {}

impl JsonFormatter {
    /// A formatter; the configuration has no settings.
    pub fn new(config: JsonFormatterConfig) -> (f: Self) {
        JsonFormatter {}
    }
}

impl From<JsonFormatterConfig> for JsonFormatter {
    fn from(config: JsonFormatterConfig) -> (f: Self) {
        JsonFormatter {}
    }
}

} // verus!
