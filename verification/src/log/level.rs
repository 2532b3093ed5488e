//! Log levels: their names, their order, and reading them from text.

use vstd::prelude::*;

use crate::text::{all_ascii, ascii_lowercase, lowercase, push_str, str_equal, to_lowercase};

verus! {

/// How severe a log message is, from the most detailed to the most severe.
#[derive(Debug, Clone, Copy, PartialEq, Eq, Structural, PartialOrd, Ord, Hash)]
pub enum LogLevel {
    Trace,
    Debug,
    Info,
    Warn,
    Error,
}

/// The level a lower-case name stands for.
pub open spec fn level_named(name: Seq<char>) -> Option<LogLevel> {
    if name == "trace"@ {
        Some(LogLevel::Trace)
    } else if name == "debug"@ {
        Some(LogLevel::Debug)
    } else if name == "info"@ {
        Some(LogLevel::Info)
    } else if name == "warn"@ {
        Some(LogLevel::Warn)
    } else if name == "error"@ {
        Some(LogLevel::Error)
    } else {
        None
    }
}

impl LogLevel {
    /// The position of the level in the order of severity, from 0 for trace to 4 for error.
    pub open spec fn spec_rank(&self) -> u8 {
        match self {
            LogLevel::Trace => 0,
            LogLevel::Debug => 1,
            LogLevel::Info => 2,
            LogLevel::Warn => 3,
            LogLevel::Error => 4,
        }
    }

    /// The position of the level in the order of severity.
    pub fn rank(&self) -> (n: u8)
        ensures
            n == self.spec_rank(),
    {
        match self {
            LogLevel::Trace => 0,
            LogLevel::Debug => 1,
            LogLevel::Info => 2,
            LogLevel::Warn => 3,
            LogLevel::Error => 4,
        }
    }

    /// Whether a message of this level passes a logger set to `threshold`.
    pub fn at_least(&self, threshold: LogLevel) -> (b: bool)
        ensures
            b == (self.spec_rank() >= threshold.spec_rank()),
    {
        self.rank() >= threshold.rank()
    }

    /// The upper-case name of the level.
    pub open spec fn spec_name(&self) -> Seq<char> {
        match self {
            LogLevel::Trace => "TRACE"@,
            LogLevel::Debug => "DEBUG"@,
            LogLevel::Info => "INFO"@,
            LogLevel::Warn => "WARN"@,
            LogLevel::Error => "ERROR"@,
        }
    }

    /// The upper-case name of the level.
    pub fn to_string(&self) -> (s: String)
        ensures
            s@ == self.spec_name(),
    {
        match self {
            LogLevel::Trace => "TRACE".to_owned(),
            LogLevel::Debug => "DEBUG".to_owned(),
            LogLevel::Info => "INFO".to_owned(),
            LogLevel::Warn => "WARN".to_owned(),
            LogLevel::Error => "ERROR".to_owned(),
        }
    }

    /// The name of the level wrapped in the terminal's color codes: red for error,
    /// yellow for warn, green for info, cyan for debug, dim white for trace; the
    /// shorter names are padded to five characters inside the codes.
    pub open spec fn spec_colored_name(&self) -> Seq<char> {
        match self {
            LogLevel::Error => "\u{1b}[31mERROR\u{1b}[0m"@,
            LogLevel::Warn => "\u{1b}[33mWARN \u{1b}[0m"@,
            LogLevel::Info => "\u{1b}[32mINFO \u{1b}[0m"@,
            LogLevel::Debug => "\u{1b}[36mDEBUG\u{1b}[0m"@,
            LogLevel::Trace => "\u{1b}[37;2mTRACE\u{1b}[0m"@,
        }
    }

    /// The colored name of the level.
    pub fn colored_name(&self) -> (s: &'static str)
        ensures
            s@ == self.spec_colored_name(),
    {
        match self {
            LogLevel::Error => "\u{1b}[31mERROR\u{1b}[0m",
            LogLevel::Warn => "\u{1b}[33mWARN \u{1b}[0m",
            LogLevel::Info => "\u{1b}[32mINFO \u{1b}[0m",
            LogLevel::Debug => "\u{1b}[36mDEBUG\u{1b}[0m",
            LogLevel::Trace => "\u{1b}[37;2mTRACE\u{1b}[0m",
        }
    }

    /// Reads a level from its name in any case.
    pub fn from_str(s: &str) -> (r: Result<LogLevel, String>)
        ensures
            match level_named(lowercase(s@)) {
                Some(l) => r == Ok::<LogLevel, String>(l),
                None => r matches Err(m) && m@ == "invalid log level: "@ + s@,
            },
            all_ascii(s@) ==> lowercase(s@) == ascii_lowercase(s@),
    {
        let l = to_lowercase(s);
        let name = l.as_str();
        if str_equal(name, "trace") {
            Ok(LogLevel::Trace)
        } else if str_equal(name, "debug") {
            Ok(LogLevel::Debug)
        } else if str_equal(name, "info") {
            Ok(LogLevel::Info)
        } else if str_equal(name, "warn") {
            Ok(LogLevel::Warn)
        } else if str_equal(name, "error") {
            Ok(LogLevel::Error)
        } else {
            let mut m = "invalid log level: ".to_owned();
            push_str(&mut m, s);
            Err(m)
        }
    }
}

} // verus!
