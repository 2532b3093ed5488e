//! The appender that writes log lines to the terminal: its target and settings.

use vstd::prelude::*;

verus! {

/// The stream a console appender writes to.
#[derive(Debug, Clone, Copy, PartialEq, Eq, Structural)]
pub enum Target {
    Stdout,
    Stderr,
}

impl Default for Target {
    fn default() -> (t: Self)
        ensures
            t == Target::Stdout,
    {
        Target::Stdout
    }
}

/// Configuration of a `ConsoleAppender`.
#[derive(Debug, Clone, PartialEq, Eq, Structural)]
pub struct ConsoleAppenderConfig {
    /// Where the lines go.
    pub target: Target,
    /// Whether the stream is flushed after each line.
    pub auto_flush: bool,
}

impl Default for ConsoleAppenderConfig {
    fn default() -> (c: Self)
        ensures
            c.target == Target::Stdout,
            c.auto_flush,
    {
        ConsoleAppenderConfig { target: Target::Stdout, auto_flush: true }
    }
}

/// Writes each log line, with a line break, to standard output or standard error.
pub struct ConsoleAppender {
    config: ConsoleAppenderConfig,
}

impl ConsoleAppender {
    /// An appender with the given configuration.
    pub fn new(config: ConsoleAppenderConfig) -> (a: Self)
        ensures
            a.spec_config() == config,
    {
        ConsoleAppender { config }
    }

    pub closed spec fn spec_config(&self) -> ConsoleAppenderConfig {
        self.config
    }

    /// Where the lines go.
    pub fn target(&self) -> (t: Target)
        ensures
            t == self.spec_config().target,
    {
        self.config.target
    }

    /// Whether the stream is flushed after each line.
    pub fn auto_flush(&self) -> (b: bool)
        ensures
            b == self.spec_config().auto_flush,
    {
        self.config.auto_flush
    }
}

impl From<ConsoleAppenderConfig> for ConsoleAppender {
    /// The appender `new` makes for `config`.
    fn from(config: ConsoleAppenderConfig) -> (a: Self)
        ensures
            a.spec_config() == config,
    {
        ConsoleAppender { config }
    }
}

impl vstd::std_specs::convert::FromSpecImpl<ConsoleAppenderConfig> for ConsoleAppender {
    closed spec fn obeys_from_spec() -> bool {
        true
    }

    closed spec fn from_spec(config: ConsoleAppenderConfig) -> Self {
        ConsoleAppender { config }
    }
}

/// An appender made with `from` keeps the configuration it was made from.
pub proof fn lemma_from_config(config: ConsoleAppenderConfig)
    ensures
        <ConsoleAppender as vstd::std_specs::convert::FromSpec<ConsoleAppenderConfig>>::obeys_from_spec(),
        <ConsoleAppender as vstd::std_specs::convert::FromSpec<ConsoleAppenderConfig>>::from_spec(config).spec_config() == config,
{
}

/// Configuration of a file appender.
#[derive(Debug, Clone)]
pub struct FileAppenderConfig {
    /// The file the lines are appended to.
    pub file_path: String,
}

impl Default for FileAppenderConfig {
    fn default() -> (c: Self)
        ensures
            c.file_path@ == "app.log"@,
    {
        FileAppenderConfig { file_path: "app.log".to_owned() }
    }
}

} // verus!
