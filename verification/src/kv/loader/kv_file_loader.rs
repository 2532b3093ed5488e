//! A loader that reads a text file of records, at the start and on each change.

use vstd::prelude::*;

use crate::kv::parser::core_types::Parser;
use super::api::{event_calls_for_load, FileEvent, Loader, LoaderError};
use super::kv_file_stream::KvFileStream;

verus! {

/// Configuration of a `KvFileLoader`.
pub struct KvFileLoaderConfig<P> {
    /// The file to read.
    pub file_path: String,
    /// The parser of the lines.
    pub parser: P,
    /// Whether lines that cannot be parsed are skipped rather than ending the load.
    pub skip_dirty_rows: bool,
    /// The buffer size the file is read with.
    pub scanner_buffer_min_size: usize,
    /// The largest buffer size.
    pub scanner_buffer_max_size: usize,
}

/// The message of a configuration with a zero minimum buffer size.
pub open spec fn zero_min_size_message() -> Seq<char> {
    "scanner_buffer_min_size must be greater than 0"@
}

/// The message of a configuration with a zero maximum buffer size.
pub open spec fn zero_max_size_message() -> Seq<char> {
    "scanner_buffer_max_size must be greater than 0"@
}

/// Reads the records of a text file, one per line, for its listener, at the start
/// and whenever the file is created or modified.
pub struct KvFileLoader<K, V, P> {
    file_path: String,
    parser: P,
    skip_dirty_rows: bool,
    scanner_buffer_min_size: usize,
    scanner_buffer_max_size: usize,
    is_running: bool,
    _phantom: std::marker::PhantomData<(K, V)>,
}

impl<K: View, V: View, P: Parser<K, V>> KvFileLoader<K, V, P> {
    /// A stopped loader; both buffer sizes must be positive.
    pub fn new(config: KvFileLoaderConfig<P>) -> (r: Result<Self, LoaderError>)
        ensures
            config.scanner_buffer_min_size == 0 ==> (r matches Err(LoaderError::LoadFailed(m)) && m@ == zero_min_size_message()),
            config.scanner_buffer_min_size != 0 && config.scanner_buffer_max_size == 0 ==> (r matches Err(LoaderError::LoadFailed(m))
                && m@ == zero_max_size_message()),
            config.scanner_buffer_min_size != 0 && config.scanner_buffer_max_size != 0 ==> (r matches Ok(l) && {
                &&& l.spec_file_path() == config.file_path@
                &&& l.spec_parser() == config.parser
                &&& l.spec_skip_dirty_rows() == config.skip_dirty_rows
                &&& l.spec_buffer_min_size() == config.scanner_buffer_min_size
                &&& l.spec_buffer_max_size() == config.scanner_buffer_max_size
                &&& !l.spec_running()
            }),
    {
        if config.scanner_buffer_min_size == 0 {
            return Err(LoaderError::LoadFailed("scanner_buffer_min_size must be greater than 0".to_owned()));
        }
        if config.scanner_buffer_max_size == 0 {
            return Err(LoaderError::LoadFailed("scanner_buffer_max_size must be greater than 0".to_owned()));
        }
        Ok(KvFileLoader {
            file_path: config.file_path,
            parser: config.parser,
            skip_dirty_rows: config.skip_dirty_rows,
            scanner_buffer_min_size: config.scanner_buffer_min_size,
            scanner_buffer_max_size: config.scanner_buffer_max_size,
            is_running: false,
            _phantom: std::marker::PhantomData,
        })
    }

    pub closed spec fn spec_file_path(&self) -> Seq<char> {
        self.file_path@
    }

    pub closed spec fn spec_parser(&self) -> P {
        self.parser
    }

    pub closed spec fn spec_skip_dirty_rows(&self) -> bool {
        self.skip_dirty_rows
    }

    pub closed spec fn spec_buffer_min_size(&self) -> usize {
        self.scanner_buffer_min_size
    }

    pub closed spec fn spec_buffer_max_size(&self) -> usize {
        self.scanner_buffer_max_size
    }

    pub closed spec fn spec_running(&self) -> bool {
        self.is_running
    }

    /// The stream of one load: the file, read with the loader's parser and settings.
    pub fn stream(&self) -> (s: KvFileStream<'_, K, V, P>)
        ensures
            s.spec_file_path() == self.spec_file_path(),
            *s.spec_parser() == self.spec_parser(),
            s.spec_skip_dirty_rows() == self.spec_skip_dirty_rows(),
            s.spec_buffer_min_size() == self.spec_buffer_min_size(),
            s.spec_buffer_max_size() == self.spec_buffer_max_size(),
    {
        KvFileStream::new(self.file_path.as_str(), &self.parser, self.skip_dirty_rows).with_buffer_sizes(
            self.scanner_buffer_min_size,
            self.scanner_buffer_max_size,
        )
    }

    /// Whether the watch is on.
    pub fn is_running(&self) -> (b: bool)
        ensures
            b == self.spec_running(),
    {
        self.is_running
    }
}


impl<K: View, V: View, P: Parser<K, V>> Loader for KvFileLoader<K, V, P> {
    open spec fn running(&self) -> bool {
        self.spec_running()
    }

    /// Turns the watch on, as a listener is registered.
    fn start(&mut self)
        ensures
            final(self).spec_running(),
            final(self).spec_file_path() == old(self).spec_file_path(),
            final(self).spec_parser() == old(self).spec_parser(),
            final(self).spec_skip_dirty_rows() == old(self).spec_skip_dirty_rows(),
            final(self).spec_buffer_min_size() == old(self).spec_buffer_min_size(),
            final(self).spec_buffer_max_size() == old(self).spec_buffer_max_size(),
    {
        self.is_running = true;
    }

    /// Whether `event` calls for a new load.
    fn on_file_event(&self, event: &FileEvent) -> (b: bool)
        ensures
            b == event_calls_for_load(self.spec_running(), *event),
    {
        self.is_running && match event {
            FileEvent::Created(_) | FileEvent::Modified(_) => true,
            _ => false,
        }
    }

    /// Turns the watch off: later events are ignored.
    fn close(&mut self) -> (r: Result<(), LoaderError>)
        ensures
            r is Ok,
            !final(self).spec_running(),
            final(self).spec_file_path() == old(self).spec_file_path(),
            final(self).spec_parser() == old(self).spec_parser(),
            final(self).spec_skip_dirty_rows() == old(self).spec_skip_dirty_rows(),
            final(self).spec_buffer_min_size() == old(self).spec_buffer_min_size(),
            final(self).spec_buffer_max_size() == old(self).spec_buffer_max_size(),
    {
        self.is_running = false;
        Ok(())
    }
}

} // verus!
