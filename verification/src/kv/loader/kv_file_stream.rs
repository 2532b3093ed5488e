//! A stream over the lines of a text file, one record per line.

use vstd::prelude::*;
use vstd::string::StringSliceAdditionalSpecFns;
use vstd::utf8::encode_utf8;

use crate::kv::parser::core_types::{ChangeType, Parser, ParserError};
use crate::text::{decimal, push_str, u64_to_decimal};
use super::api::LoaderError;

verus! {

/// The buffer size the file is read with when none is given.
pub const DEFAULT_SCANNER_BUFFER_MIN_SIZE: usize = 65536;

/// The largest buffer size when none is given.
pub const DEFAULT_SCANNER_BUFFER_MAX_SIZE: usize = 4194304;

/// What one line gives: `Some(Some(record))` a record, `Some(None)` a dirty line that
/// is skipped, `None` a dirty line that stops the stream.
pub open spec fn row_outcome<K: View, V: View, P: Parser<K, V>>(parser: &P, skip_dirty_rows: bool, line: Seq<char>) -> Option<Option<(ChangeType, K::V, V::V)>> {
    match parser.spec_parse(encode_utf8(line)) {
        Some(rec) => Some(Some(rec)),
        None => if skip_dirty_rows {
            Some(None)
        } else {
            None
        },
    }
}

/// The message of a line that could not be parsed.
pub open spec fn parse_failure_message(row: nat, line: Seq<char>, err: Seq<char>) -> Seq<char> {
    "parse failed for line "@ + decimal(row) + ", content='"@ + line + "': "@ + err
}

/// The message of a callback that refused the record of a line.
pub open spec fn callback_failure_message(row: nat, err: Seq<char>) -> Seq<char> {
    "callback failed at line "@ + decimal(row) + ": "@ + err
}

/// Whether row `row` (`line`) goes through without stopping the stream: its record was
/// handed to `callback`, which accepted it, or it is a dirty line that is skipped.
pub open spec fn row_passes<K: View, V: View, P: Parser<K, V>, F: Fn(ChangeType, K, V) -> Result<(), LoaderError>>(
    parser: &P,
    skip_dirty_rows: bool,
    line: Seq<char>,
    callback: &F,
) -> bool {
    match row_outcome::<K, V, P>(parser, skip_dirty_rows, line) {
        Some(Some((ct, kv, vv))) => exists|k: K, v: V, out: Result<(), LoaderError>| k@ == kv && v@ == vv && out is Ok && #[trigger] callback.ensures((ct, k, v), out),
        Some(None) => true,
        None => false,
    }
}

/// Whether row `row` (`line`) stops the stream with `e`: its parse failed and dirty
/// lines are not skipped, or `callback` refused its record.
pub open spec fn row_stops<K: View, V: View, P: Parser<K, V>, F: Fn(ChangeType, K, V) -> Result<(), LoaderError>>(
    parser: &P,
    skip_dirty_rows: bool,
    row: nat,
    line: Seq<char>,
    callback: &F,
    e: LoaderError,
) -> bool {
    match row_outcome::<K, V, P>(parser, skip_dirty_rows, line) {
        Some(Some((ct, kv, vv))) => exists|k: K, v: V, err: LoaderError| {
            &&& k@ == kv
            &&& v@ == vv
            &&& #[trigger] callback.ensures((ct, k, v), Err(err))
            &&& e matches LoaderError::LoadFailed(m) && m@ == callback_failure_message(row, err.spec_message())
        },
        Some(None) => false,
        None => e matches LoaderError::ParserError(m) && exists|pe: ParserError|
            m@ == parse_failure_message(row, line, #[trigger] pe.spec_message()),
    }
}

/// The records of a text file, one per line, read with a parser.
pub struct KvFileStream<'a, K, V, P> {
    file_path: String,
    parser: &'a P,
    skip_dirty_rows: bool,
    scanner_buffer_min_size: usize,
    scanner_buffer_max_size: usize,
    _phantom: std::marker::PhantomData<(K, V)>,
}

impl<'a, K: View, V: View, P: Parser<K, V>> KvFileStream<'a, K, V, P> {
    /// A stream over the file at `file_path`, with the default buffer sizes.
    pub fn new(file_path: &str, parser: &'a P, skip_dirty_rows: bool) -> (s: Self)
        ensures
            s.spec_file_path() == file_path@,
            s.spec_parser() == parser,
            s.spec_skip_dirty_rows() == skip_dirty_rows,
            s.spec_buffer_min_size() == DEFAULT_SCANNER_BUFFER_MIN_SIZE,
            s.spec_buffer_max_size() == DEFAULT_SCANNER_BUFFER_MAX_SIZE,
    {
        KvFileStream {
            file_path: file_path.to_owned(),
            parser,
            skip_dirty_rows,
            scanner_buffer_min_size: DEFAULT_SCANNER_BUFFER_MIN_SIZE,
            scanner_buffer_max_size: DEFAULT_SCANNER_BUFFER_MAX_SIZE,
            _phantom: std::marker::PhantomData,
        }
    }

    /// The same stream with other buffer sizes.
    pub fn with_buffer_sizes(self, min_size: usize, max_size: usize) -> (s: Self)
        ensures
            s.spec_file_path() == self.spec_file_path(),
            s.spec_parser() == self.spec_parser(),
            s.spec_skip_dirty_rows() == self.spec_skip_dirty_rows(),
            s.spec_buffer_min_size() == min_size,
            s.spec_buffer_max_size() == max_size,
    {
        KvFileStream {
            file_path: self.file_path,
            parser: self.parser,
            skip_dirty_rows: self.skip_dirty_rows,
            scanner_buffer_min_size: min_size,
            scanner_buffer_max_size: max_size,
            _phantom: std::marker::PhantomData,
        }
    }

    pub closed spec fn spec_file_path(&self) -> Seq<char> {
        self.file_path@
    }

    pub closed spec fn spec_parser(&self) -> &'a P {
        self.parser
    }

    pub closed spec fn spec_skip_dirty_rows(&self) -> bool {
        self.skip_dirty_rows
    }

    pub closed spec fn spec_buffer_min_size(&self) -> usize {
        self.scanner_buffer_min_size
    }

    pub closed spec fn spec_buffer_max_size(&self) -> usize {
        self.scanner_buffer_max_size
    }

    /// The path of the file.
    pub fn file_path(&self) -> (p: &str)
        ensures
            p@ == self.spec_file_path(),
    {
        self.file_path.as_str()
    }

    /// The size of the buffer the file is read with.
    pub fn buffer_min_size(&self) -> (n: usize)
        ensures
            n == self.spec_buffer_min_size(),
    {
        self.scanner_buffer_min_size
    }

    /// The largest buffer size.
    pub fn buffer_max_size(&self) -> (n: usize)
        ensures
            n == self.spec_buffer_max_size(),
    {
        self.scanner_buffer_max_size
    }

    /// Parses line number `row` (counted from 1): the record, `None` for a dirty line
    /// that is skipped, or the error that stops the stream.
    pub fn parse_row(&self, row: usize, line: &str) -> (r: Result<Option<(ChangeType, K, V)>, LoaderError>)
        ensures
            match row_outcome::<K, V, P>(self.spec_parser(), self.spec_skip_dirty_rows(), line@) {
                Some(Some((ct, kv, vv))) => r matches Ok(Some((c, k, v))) && c == ct && k@ == kv && v@ == vv,
                Some(None) => r matches Ok(None),
                None => r matches Err(LoaderError::ParserError(m)) && exists|e: ParserError|
                    m@ == parse_failure_message(row as nat, line@, #[trigger] e.spec_message()),
            },
    {
        let bytes = line.as_bytes();
        match self.parser.parse(bytes) {
            Ok((ct, k, v)) => Ok(Some((ct, k, v))),
            Err(e) => {
                if self.skip_dirty_rows {
                    Ok(None)
                } else {
                    let mut m = "parse failed for line ".to_owned();
                    let d = u64_to_decimal(row as u64);
                    push_str(&mut m, d.as_str());
                    push_str(&mut m, ", content='");
                    push_str(&mut m, line);
                    push_str(&mut m, "': ");
                    let em = e.message();
                    push_str(&mut m, em.as_str());
                    proof {
                        assert(m@ == parse_failure_message(row as nat, line@, e.spec_message()));
                    }
                    Err(LoaderError::ParserError(m))
                }
            },
        }
    }

    /// Handles line number `row` (counted from 1): its record goes to `callback`; a
    /// dirty line is skipped or stops the stream; a refusal of the callback stops it.
    pub fn each_line<F: Fn(ChangeType, K, V) -> Result<(), LoaderError>>(&self, row: usize, line: &str, callback: &F) -> (r: Result<(), LoaderError>)
        requires
            forall|ct: ChangeType, k: K, v: V| #[trigger] callback.requires((ct, k, v)),
        ensures
            match row_outcome::<K, V, P>(self.spec_parser(), self.spec_skip_dirty_rows(), line@) {
                Some(Some((ct, kv, vv))) => exists|k: K, v: V, out: Result<(), LoaderError>| {
                    &&& k@ == kv
                    &&& v@ == vv
                    &&& #[trigger] callback.ensures((ct, k, v), out)
                    &&& match out {
                        Ok(()) => r is Ok,
                        Err(e) => r matches Err(LoaderError::LoadFailed(m)) && m@ == callback_failure_message(row as nat, e.spec_message()),
                    }
                },
                Some(None) => r is Ok,
                None => r matches Err(LoaderError::ParserError(m)) && exists|e: ParserError|
                    m@ == parse_failure_message(row as nat, line@, #[trigger] e.spec_message()),
            },
    {
        match self.parse_row(row, line) {
            Err(e) => Err(e),
            Ok(None) => Ok(()),
            Ok(Some((ct, k, v))) => {
                let ghost gk = k;
                let ghost gv = v;
                let out = callback(ct, k, v);
                match out {
                    Ok(()) => Ok(()),
                    Err(e) => {
                        let mut m = "callback failed at line ".to_owned();
                        let d = u64_to_decimal(row as u64);
                        push_str(&mut m, d.as_str());
                        push_str(&mut m, ": ");
                        let em = e.message();
                        push_str(&mut m, em.as_str());
                        Err(LoaderError::LoadFailed(m))
                    },
                }
            },
        }
    }


    /// Hands the records of `lines` (line i is row i + 1) to `callback`, in order: every
    /// row before the stop went through (its record accepted by the callback, or a
    /// skipped dirty line); the stream stops at the first row whose parse fails (when
    /// dirty lines are not skipped) or whose record the callback refuses, with that
    /// row's error; with no such row it succeeds.
    pub fn each_lines<F: Fn(ChangeType, K, V) -> Result<(), LoaderError>>(&self, lines: &Vec<String>, callback: &F) -> (r: Result<(), LoaderError>)
        requires
            forall|ct: ChangeType, k: K, v: V| #[trigger] callback.requires((ct, k, v)),
        ensures
            r is Ok ==> forall|j: int| 0 <= j < lines@.len() ==> #[trigger] row_passes::<K, V, P, F>(
                self.spec_parser(),
                self.spec_skip_dirty_rows(),
                lines@[j]@,
                callback,
            ),
            r matches Err(e) ==> exists|s: int| {
                &&& 0 <= s < lines@.len()
                &&& forall|j: int| 0 <= j < s ==> #[trigger] row_passes::<K, V, P, F>(
                    self.spec_parser(),
                    self.spec_skip_dirty_rows(),
                    lines@[j]@,
                    callback,
                )
                &&& #[trigger] row_stops::<K, V, P, F>(
                    self.spec_parser(),
                    self.spec_skip_dirty_rows(),
                    (s + 1) as nat,
                    lines@[s]@,
                    callback,
                    e,
                )
            },
    {
        let mut i: usize = 0;
        while i < lines.len()
            invariant
                i <= lines@.len(),
                forall|ct: ChangeType, k: K, v: V| #[trigger] callback.requires((ct, k, v)),
                forall|j: int| 0 <= j < i ==> #[trigger] row_passes::<K, V, P, F>(
                    self.spec_parser(),
                    self.spec_skip_dirty_rows(),
                    lines@[j]@,
                    callback,
                ),
            decreases lines@.len() - i,
        {
            let r = self.each_line(i + 1, lines[i].as_str(), callback);
            proof {
                let o = row_outcome::<K, V, P>(self.spec_parser(), self.spec_skip_dirty_rows(), lines@[i as int]@);
                if let Some(Some((ct, kv, vv))) = o {
                    let (k, v, out) = choose|k: K, v: V, out: Result<(), LoaderError>| {
                        &&& k@ == kv
                        &&& v@ == vv
                        &&& #[trigger] callback.ensures((ct, k, v), out)
                        &&& match out {
                            Ok(()) => r is Ok,
                            Err(e) => r matches Err(LoaderError::LoadFailed(m)) && m@ == callback_failure_message((i + 1) as nat, e.spec_message()),
                        }
                    };
                    match out {
                        Ok(()) => {
                            assert(callback.ensures((ct, k, v), out));
                        },
                        Err(err) => {
                            assert(callback.ensures((ct, k, v), Err(err)));
                        },
                    }
                }
            }
            match r {
                Ok(()) => {},
                Err(e) => {
                    proof {
                        assert(row_stops::<K, V, P, F>(self.spec_parser(), self.spec_skip_dirty_rows(), (i + 1) as nat, lines@[i as int]@, callback, e));
                    }
                    return Err(e);
                },
            }
            assert(row_passes::<K, V, P, F>(self.spec_parser(), self.spec_skip_dirty_rows(), lines@[i as int]@, callback));
            i += 1;
        }
        Ok(())
    }
}

} // verus!
