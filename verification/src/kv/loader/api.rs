//! Load strategies, the loader error, and the stream interface.

use vstd::prelude::*;

use crate::kv::parser::core_types::ChangeType;

verus! {

/// Replace the whole store with what a load brings.
pub const LOAD_STRATEGY_REPLACE: &'static str = "replace";

/// Apply what a load brings to the store in place.
pub const LOAD_STRATEGY_INPLACE: &'static str = "inplace";

/// Errors of loaders and streams.
#[derive(Debug, Clone)]
pub enum LoaderError {
    LoadFailed(String),
    ParserError(String),
}

impl LoaderError {
    /// The text of the error.
    pub fn message(&self) -> (s: String)
        ensures
            s@ == self.spec_message(),
    {
        match self {
            LoaderError::LoadFailed(m) => {
                let mut s = "Load failed: ".to_owned();
                s.append(m.as_str());
                s
            },
            LoaderError::ParserError(m) => {
                let mut s = "Parser error: ".to_owned();
                s.append(m.as_str());
                s
            },
        }
    }

    pub open spec fn spec_message(&self) -> Seq<char> {
        match self {
            LoaderError::LoadFailed(m) => "Load failed: "@ + m@,
            LoaderError::ParserError(m) => "Parser error: "@ + m@,
        }
    }
}

/// A change the file watcher reports.
#[derive(Debug, Clone)]
pub enum FileEvent {
    Created(String),
    Modified(String),
    Deleted(String),
    Error(String),
}

/// Whether a watcher event, seen while the watch is on, calls for a new load: only a
/// created or modified file does.
pub open spec fn event_calls_for_load(running: bool, event: FileEvent) -> bool {
    running && (event is Created || event is Modified)
}

/// A stream of records handed one by one to a callback.
pub trait KvStream<K, V> {
    /// Hands each record of the stream to `callback`, stopping at the first failure.
    fn each<F: Fn(ChangeType, K, V) -> Result<(), LoaderError>>(&self, callback: &F) -> (r: Result<(), LoaderError>)
        requires
            forall|ct: ChangeType, k: K, v: V| #[trigger] callback.requires((ct, k, v)),
    ;
}

/// A source of records that notifies its listener at the start and on each change
/// of what it watches.
pub trait Loader {
    /// Whether the watch is on.
    spec fn running(&self) -> bool;

    /// Turns the watch on, as a listener is registered.
    fn start(&mut self)
        ensures
            final(self).running(),
    ;

    /// Whether `event` calls for notifying the listener.
    fn on_file_event(&self, event: &FileEvent) -> (b: bool)
        ensures
            b == event_calls_for_load(self.running(), *event),
    ;

    /// Turns the watch off: later events are ignored.
    fn close(&mut self) -> (r: Result<(), LoaderError>)
        ensures
            r is Ok,
            !final(self).running(),
    ;
}

} // verus!
