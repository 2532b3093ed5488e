//! A loader that only reports that a file changed, with an empty stream.

use vstd::prelude::*;

use super::api::{event_calls_for_load, FileEvent, Loader, LoaderError};

verus! {

/// Configuration of a `FileTrigger`.
#[derive(Debug, Clone)]
pub struct FileTriggerConfig {
    /// The file to watch.
    pub file_path: String,
}

/// Watches a file and notifies its listener, with an empty stream, at the start and
/// on each change; it reads nothing itself.
pub struct FileTrigger<K, V> {
    file_path: String,
    is_running: bool,
    _phantom: std::marker::PhantomData<(K, V)>,
}

impl<K, V> FileTrigger<K, V> {
    /// A stopped trigger on the configured file.
    pub fn new(config: FileTriggerConfig) -> (r: Result<Self, LoaderError>)
        ensures
            r matches Ok(t) && t.spec_file_path() == config.file_path@ && !t.spec_running(),
    {
        Ok(FileTrigger { file_path: config.file_path, is_running: false, _phantom: std::marker::PhantomData })
    }

    pub closed spec fn spec_file_path(&self) -> Seq<char> {
        self.file_path@
    }

    pub closed spec fn spec_running(&self) -> bool {
        self.is_running
    }

    /// The watched file.
    pub fn file_path(&self) -> (p: &str)
        ensures
            p@ == self.spec_file_path(),
    {
        self.file_path.as_str()
    }

    /// Whether the watch is on.
    pub fn is_running(&self) -> (b: bool)
        ensures
            b == self.spec_running(),
    {
        self.is_running
    }
}


impl<K, V> Loader for FileTrigger<K, V> {
    open spec fn running(&self) -> bool {
        self.spec_running()
    }

    /// Turns the watch on, as a listener is registered.
    fn start(&mut self)
        ensures
            final(self).spec_running(),
            final(self).spec_file_path() == old(self).spec_file_path(),
    {
        self.is_running = true;
    }

    /// Whether `event` calls for notifying the listener.
    fn on_file_event(&self, event: &FileEvent) -> (b: bool)
        ensures
            b == event_calls_for_load(self.spec_running(), *event),
    {
        self.is_running && match event {
            FileEvent::Created(_) | FileEvent::Modified(_) => true,
            _ => false,
        }
    }

    /// Turns the watch off: later events are ignored.
    fn close(&mut self) -> (r: Result<(), LoaderError>)
        ensures
            r is Ok,
            !final(self).spec_running(),
            final(self).spec_file_path() == old(self).spec_file_path(),
    {
        self.is_running = false;
        Ok(())
    }
}

} // verus!
