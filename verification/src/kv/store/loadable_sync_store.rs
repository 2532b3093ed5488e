//! A store whose contents come from a loader, applied in place or swapped in whole.

use vstd::prelude::*;

use crate::kv::loader::api::{Loader, LoaderError};
use crate::kv::loader::kv_file_loader::KvFileLoader;
use crate::kv::loader::kv_file_stream::{parse_failure_message, row_outcome, KvFileStream};
use crate::kv::parser::core_types::{ChangeType, Parser, ParserError};
use crate::text::{first_match, push_str, str_contains, str_equal};
use super::api::{after_set, views, IsSyncStore, KvError, KvItem, SetOptions, SyncStore};

verus! {

/// Configuration of a `LoadableSyncStore`.
#[derive(Debug, Clone)]
pub struct LoadableSyncStoreConfig {
    /// How a load reaches the store: "inplace" or "replace".
    pub load_strategy: String,
}

impl Default for LoadableSyncStoreConfig {
    fn default() -> (c: Self)
        ensures
            c.load_strategy@ == "inplace"@,
    {
        LoadableSyncStoreConfig { load_strategy: "inplace".to_owned() }
    }
}

/// How a load reaches the store.
#[derive(Debug, Clone, Copy, PartialEq, Eq, Structural)]
pub enum LoadStrategy {
    /// Each record is applied to the current store.
    InPlace,
    /// The records fill a fresh store, which then takes the place of the current one.
    Replace,
}

/// A strategy name passes the configuration check when it holds "inplace" or
/// "replace" anywhere.
pub open spec fn strategy_name_accepted(name: Seq<char>) -> bool {
    first_match(name, "inplace"@, 0) is Some || first_match(name, "replace"@, 0) is Some
}

/// The strategy a name stands for, if it names one exactly.
pub open spec fn spec_strategy(name: Seq<char>) -> Option<LoadStrategy> {
    if name == "inplace"@ {
        Some(LoadStrategy::InPlace)
    } else if name == "replace"@ {
        Some(LoadStrategy::Replace)
    } else {
        None
    }
}

/// The message of a refused configuration.
pub open spec fn validation_failure_message() -> Seq<char> {
    "configuration validation failed: load_strategy: does not match pattern inplace|replace"@
}

/// The contents after one record: a delete removes the key in place and is ignored
/// when filling a fresh store; any other change sets the key.
pub open spec fn apply_record<KV, VV>(m: Map<KV, VV>, rec: (ChangeType, KV, VV), replace: bool) -> Map<KV, VV> {
    if rec.0 == ChangeType::Delete {
        if replace {
            m
        } else {
            m.remove(rec.1)
        }
    } else {
        m.insert(rec.1, rec.2)
    }
}

/// The contents after loading `lines` in order into `m`, and the index of the line
/// that stopped the load, if one did.
pub open spec fn load_rows<K: View, V: View, P: Parser<K, V>>(
    m: Map<K::V, V::V>,
    parser: P,
    skip_dirty_rows: bool,
    lines: Seq<Seq<char>>,
    replace: bool,
) -> (Map<K::V, V::V>, Option<int>)
    decreases lines.len(),
{
    if lines.len() == 0 {
        (m, None)
    } else {
        let (m0, stop) = load_rows::<K, V, P>(m, parser, skip_dirty_rows, lines.drop_last(), replace);
        if stop is Some {
            (m0, stop)
        } else {
            match row_outcome::<K, V, P>(&parser, skip_dirty_rows, lines.last()) {
                None => (m0, Some(lines.len() - 1)),
                Some(None) => (m0, None),
                Some(Some(rec)) => (apply_record(m0, rec, replace), None),
            }
        }
    }
}

/// Once a line stops a load, the lines after it change nothing.
pub proof fn lemma_load_rows_stopped<K: View, V: View, P: Parser<K, V>>(
    m: Map<K::V, V::V>,
    parser: P,
    skip_dirty_rows: bool,
    lines: Seq<Seq<char>>,
    j: int,
    replace: bool,
)
    requires
        0 <= j <= lines.len(),
        load_rows::<K, V, P>(m, parser, skip_dirty_rows, lines.take(j), replace).1 is Some,
    ensures
        load_rows::<K, V, P>(m, parser, skip_dirty_rows, lines, replace) == load_rows::<K, V, P>(
            m,
            parser,
            skip_dirty_rows,
            lines.take(j),
            replace,
        ),
    decreases lines.len(),
{
    if j == lines.len() {
        assert(lines.take(j) =~= lines);
    } else {
        assert(lines.drop_last().take(j) =~= lines.take(j));
        lemma_load_rows_stopped::<K, V, P>(m, parser, skip_dirty_rows, lines.drop_last(), j, replace);
    }
}

/// When dirty lines are skipped, no line stops a load.
pub proof fn law_skipping_load_never_stops<K: View, V: View, P: Parser<K, V>>(
    m: Map<K::V, V::V>,
    parser: P,
    lines: Seq<Seq<char>>,
    replace: bool,
)
    ensures
        load_rows::<K, V, P>(m, parser, true, lines, replace).1 is None,
    decreases lines.len(),
{
    if lines.len() > 0 {
        law_skipping_load_never_stops::<K, V, P>(m, parser, lines.drop_last(), replace);
    }
}

/// A load stopped at line `j` leaves exactly what the lines before `j` brought.
pub proof fn law_stopped_load_keeps_earlier_lines<K: View, V: View, P: Parser<K, V>>(
    m: Map<K::V, V::V>,
    parser: P,
    skip_dirty_rows: bool,
    lines: Seq<Seq<char>>,
    replace: bool,
    j: int,
)
    requires
        load_rows::<K, V, P>(m, parser, skip_dirty_rows, lines, replace).1 == Some(j),
    ensures
        0 <= j < lines.len(),
        row_outcome::<K, V, P>(&parser, skip_dirty_rows, lines[j]) is None,
        load_rows::<K, V, P>(m, parser, skip_dirty_rows, lines.take(j), replace) == (
            load_rows::<K, V, P>(m, parser, skip_dirty_rows, lines, replace).0,
            None::<int>,
        ),
    decreases lines.len(),
{
    let (m0, stop) = load_rows::<K, V, P>(m, parser, skip_dirty_rows, lines.drop_last(), replace);
    if stop is Some {
        law_stopped_load_keeps_earlier_lines::<K, V, P>(m, parser, skip_dirty_rows, lines.drop_last(), replace, j);
        assert(lines.drop_last().take(j) =~= lines.take(j));
    } else {
        assert(lines.take(j) =~= lines.drop_last());
    }
}

/// Loads `lines` into `store`, row by row, until a row stops the load.
fn apply_rows<K: KvItem, V: KvItem, S: SyncStore<K, V>, P: Parser<K, V>>(
    store: &mut S,
    stream: &KvFileStream<'_, K, V, P>,
    lines: &Vec<String>,
    replace: bool,
) -> (r: Result<(), LoaderError>)
    requires
        old(store).inv(),
    ensures
        final(store).inv(),
        ({
            let (m, stop) = load_rows::<K, V, P>(
                old(store).contents(),
                *stream.spec_parser(),
                stream.spec_skip_dirty_rows(),
                views(lines@),
                replace,
            );
            &&& final(store).contents() == m
            &&& r is Ok <==> stop is None
            &&& stop matches Some(j) ==> (r matches Err(LoaderError::ParserError(msg)) && exists|e: ParserError|
                msg@ == parse_failure_message((j + 1) as nat, lines@[j]@, #[trigger] e.spec_message()))
        }),
{
    let ghost m0 = store.contents();
    let ghost parser = *stream.spec_parser();
    let ghost skip = stream.spec_skip_dirty_rows();
    let ghost all = views(lines@);
    let opts = SetOptions::new();
    let mut i: usize = 0;
    proof {
        assert(all.take(0) =~= Seq::<Seq<char>>::empty());
    }
    while i < lines.len()
        invariant
            store.inv(),
            m0 == old(store).contents(),
            i <= lines@.len(),
            all == views(lines@),
            parser == *stream.spec_parser(),
            skip == stream.spec_skip_dirty_rows(),
            !opts.if_not_exist,
            load_rows::<K, V, P>(m0, parser, skip, all.take(i as int), replace) == (store.contents(), None::<int>),
        decreases lines@.len() - i,
    {
        let ghost before = store.contents();
        proof {
            assert(all.take(i + 1).drop_last() =~= all.take(i as int));
            assert(all.take(i + 1).last() == lines@[i as int]@);
        }
        let row = i + 1;
        match stream.parse_row(row, lines[i].as_str()) {
            Err(e) => {
                proof {
                    assert(row_outcome::<K, V, P>(&parser, skip, lines@[i as int]@) is None);
                    assert(load_rows::<K, V, P>(m0, parser, skip, all.take(i + 1), replace) == (before, Some(i as int)));
                    lemma_load_rows_stopped::<K, V, P>(m0, parser, skip, all, i + 1, replace);
                    assert(load_rows::<K, V, P>(m0, parser, skip, all, replace) == (before, Some(i as int)));
                    assert(e matches LoaderError::ParserError(msg) && exists|pe: ParserError|
                        msg@ == parse_failure_message((i + 1) as nat, lines@[i as int]@, #[trigger] pe.spec_message()));
                }
                return Err(e);
            },
            Ok(None) => {},
            Ok(Some((ct, k, v))) => {
                match ct {
                    ChangeType::Delete => {
                        if !replace {
                            let _ = store.del_sync(&k);
                        }
                    },
                    _ => {
                        let _ = store.set_sync(&k, &v, &opts);
                    },
                }
                proof {
                    assert(store.contents() == apply_record(before, (ct, k@, v@), replace));
                }
            },
        }
        i += 1;
    }
    proof {
        assert(all.take(i as int) =~= all);
    }
    Ok(())
}

/// Whether `after` and `r` are what loading `lines` with `strategy` gives a store
/// holding `before`, the records read by `parser` (dirty lines skipped or not): in
/// place, the records applied in order until a line stops the load; by replacement,
/// the records applied to `fresh`, which takes the place of the store only when no
/// line stopped the load.
pub open spec fn load_outcome<K: View, V: View, P: Parser<K, V>>(
    strategy: LoadStrategy,
    before: Map<K::V, V::V>,
    fresh: Map<K::V, V::V>,
    parser: P,
    skip_dirty_rows: bool,
    lines: Seq<Seq<char>>,
    after: Map<K::V, V::V>,
    ok: bool,
) -> bool {
    match strategy {
        LoadStrategy::InPlace => {
            let (m, stop) = load_rows::<K, V, P>(before, parser, skip_dirty_rows, lines, false);
            &&& after == m
            &&& ok <==> stop is None
        },
        LoadStrategy::Replace => {
            let (m, stop) = load_rows::<K, V, P>(fresh, parser, skip_dirty_rows, lines, true);
            &&& ok <==> stop is None
            &&& stop is None ==> after == m
            &&& stop is Some ==> after == before
        },
    }
}

/// Loads `lines`, read by `stream`, into `store` with `strategy`.
fn load_by<K: KvItem, V: KvItem, S: SyncStore<K, V>, P: Parser<K, V>>(
    store: &mut S,
    strategy: LoadStrategy,
    stream: &KvFileStream<'_, K, V, P>,
    lines: &Vec<String>,
    fresh: S,
) -> (r: Result<(), LoaderError>)
    requires
        old(store).inv(),
        fresh.inv(),
    ensures
        final(store).inv(),
        load_outcome::<K, V, P>(
            strategy,
            old(store).contents(),
            fresh.contents(),
            *stream.spec_parser(),
            stream.spec_skip_dirty_rows(),
            views(lines@),
            final(store).contents(),
            r is Ok,
        ),
{
    match strategy {
        LoadStrategy::InPlace => apply_rows(store, stream, lines, false),
        LoadStrategy::Replace => {
            let mut next = fresh;
            match apply_rows(&mut next, stream, lines, true) {
                Err(e) => Err(e),
                Ok(()) => {
                    std::mem::swap(store, &mut next);
                    let _ = next.close_sync();
                    Ok(())
                },
            }
        },
    }
}

/// A store whose contents are loaded from a source of records, with one of two
/// strategies; it owns the loader that reads them and closes it when closed.
pub struct LoadableSyncStore<K, V, S, L> {
    store: S,
    loader: L,
    load_strategy: String,
    _phantom: std::marker::PhantomData<(K, V)>,
}

impl<K: KvItem, V: KvItem, S: SyncStore<K, V>, L: Loader> LoadableSyncStore<K, V, S, L> {
    /// Wraps `store` and takes `loader`, whose watch it turns on; the configured
    /// strategy must hold "inplace" or "replace".
    pub fn new(config: LoadableSyncStoreConfig, store: S, loader: L) -> (r: Result<Self, KvError>)
        ensures
            strategy_name_accepted(config.load_strategy@) ==> (r matches Ok(s) && {
                &&& s.spec_store() == store
                &&& s.spec_strategy_name() == config.load_strategy@
                &&& (store.inv() ==> s.inv())
                &&& s.contents() == store.contents()
                &&& s.spec_loader().running()
            }),
            !strategy_name_accepted(config.load_strategy@) ==> (r matches Err(KvError::Other(m))
                && m@ == validation_failure_message()),
    {
        proof {
            reveal_strlit("inplace");
            reveal_strlit("replace");
        }
        if !(str_contains(config.load_strategy.as_str(), "inplace") || str_contains(config.load_strategy.as_str(), "replace")) {
            return Err(KvError::Other(
                "configuration validation failed: load_strategy: does not match pattern inplace|replace".to_owned(),
            ));
        }
        let mut loader = loader;
        loader.start();
        Ok(LoadableSyncStore { store, loader, load_strategy: config.load_strategy, _phantom: std::marker::PhantomData })
    }

    pub closed spec fn spec_store(&self) -> S {
        self.store
    }

    pub closed spec fn spec_loader(&self) -> L {
        self.loader
    }

    /// The loader of the store.
    pub fn loader(&self) -> (l: &L)
        ensures
            *l == self.spec_loader(),
    {
        &self.loader
    }

    pub closed spec fn spec_strategy_name(&self) -> Seq<char> {
        self.load_strategy@
    }

    /// The strategy of the loads, or the error every load ends with when the
    /// configured name is none of them exactly.
    pub fn strategy(&self) -> (r: Result<LoadStrategy, LoaderError>)
        ensures
            match spec_strategy(self.spec_strategy_name()) {
                Some(st) => r == Ok::<LoadStrategy, LoaderError>(st),
                None => r matches Err(LoaderError::LoadFailed(m)) && m@ == "unknown load strategy: "@ + self.spec_strategy_name(),
            },
    {
        if str_equal(self.load_strategy.as_str(), "inplace") {
            Ok(LoadStrategy::InPlace)
        } else if str_equal(self.load_strategy.as_str(), "replace") {
            Ok(LoadStrategy::Replace)
        } else {
            let mut m = "unknown load strategy: ".to_owned();
            push_str(&mut m, self.load_strategy.as_str());
            Err(LoaderError::LoadFailed(m))
        }
    }

    /// Applies the records of `lines`, read by `stream`, to the current store, in
    /// order, until a line stops the load; what was applied before stays.
    pub fn load_inplace<P: Parser<K, V>>(&mut self, stream: &KvFileStream<'_, K, V, P>, lines: &Vec<String>) -> (r: Result<(), LoaderError>)
        requires
            old(self).inv(),
        ensures
            final(self).inv(),
            final(self).spec_strategy_name() == old(self).spec_strategy_name(),
            final(self).spec_loader() == old(self).spec_loader(),
            ({
                let (m, stop) = load_rows::<K, V, P>(
                    old(self).contents(),
                    *stream.spec_parser(),
                    stream.spec_skip_dirty_rows(),
                    views(lines@),
                    false,
                );
                &&& final(self).contents() == m
                &&& r is Ok <==> stop is None
                &&& stop matches Some(j) ==> (r matches Err(LoaderError::ParserError(msg)) && exists|e: ParserError|
                    msg@ == parse_failure_message((j + 1) as nat, lines@[j]@, #[trigger] e.spec_message()))
            }),
    {
        apply_rows(&mut self.store, stream, lines, false)
    }

    /// Fills `fresh` with the records of `lines`, read by `stream`; when no line stops
    /// the load, `fresh` takes the place of the current store, which is closed;
    /// otherwise the current store stays as it was.
    pub fn load_replace<P: Parser<K, V>>(&mut self, stream: &KvFileStream<'_, K, V, P>, lines: &Vec<String>, fresh: S) -> (r: Result<(), LoaderError>)
        requires
            old(self).inv(),
            fresh.inv(),
        ensures
            final(self).inv(),
            final(self).spec_strategy_name() == old(self).spec_strategy_name(),
            final(self).spec_loader() == old(self).spec_loader(),
            ({
                let (m, stop) = load_rows::<K, V, P>(
                    fresh.contents(),
                    *stream.spec_parser(),
                    stream.spec_skip_dirty_rows(),
                    views(lines@),
                    true,
                );
                &&& r is Ok <==> stop is None
                &&& stop is None ==> final(self).contents() == m
                &&& stop is Some ==> final(self).contents() == old(self).contents()
                &&& stop matches Some(j) ==> (r matches Err(LoaderError::ParserError(msg)) && exists|e: ParserError|
                    msg@ == parse_failure_message((j + 1) as nat, lines@[j]@, #[trigger] e.spec_message()))
            }),
    {
        let mut next = fresh;
        match apply_rows(&mut next, stream, lines, true) {
            Err(e) => Err(e),
            Ok(()) => {
                std::mem::swap(&mut self.store, &mut next);
                let _ = next.close_sync();
                Ok(())
            },
        }
    }

    /// Loads the records of `lines`, read by `stream`, with the store's strategy: in
    /// place into the current store, or into `fresh`, which then replaces it; a
    /// strategy that is neither leaves the store as it was and fails.
    pub fn load<P: Parser<K, V>>(&mut self, stream: &KvFileStream<'_, K, V, P>, lines: &Vec<String>, fresh: S) -> (r: Result<(), LoaderError>)
        requires
            old(self).inv(),
            fresh.inv(),
        ensures
            final(self).inv(),
            final(self).spec_strategy_name() == old(self).spec_strategy_name(),
            final(self).spec_loader() == old(self).spec_loader(),
            match spec_strategy(old(self).spec_strategy_name()) {
                None => final(self).contents() == old(self).contents() && (r matches Err(LoaderError::LoadFailed(m))
                    && m@ == "unknown load strategy: "@ + old(self).spec_strategy_name()),
                Some(LoadStrategy::InPlace) => {
                    let (m, stop) = load_rows::<K, V, P>(
                        old(self).contents(),
                        *stream.spec_parser(),
                        stream.spec_skip_dirty_rows(),
                        views(lines@),
                        false,
                    );
                    &&& final(self).contents() == m
                    &&& r is Ok <==> stop is None
                },
                Some(LoadStrategy::Replace) => {
                    let (m, stop) = load_rows::<K, V, P>(
                        fresh.contents(),
                        *stream.spec_parser(),
                        stream.spec_skip_dirty_rows(),
                        views(lines@),
                        true,
                    );
                    &&& r is Ok <==> stop is None
                    &&& stop is None ==> final(self).contents() == m
                    &&& stop is Some ==> final(self).contents() == old(self).contents()
                },
            },
    {
        match self.strategy() {
            Ok(LoadStrategy::InPlace) => self.load_inplace(stream, lines),
            Ok(LoadStrategy::Replace) => self.load_replace(stream, lines, fresh),
            Err(e) => Err(e),
        }
    }
}

impl<K: KvItem, V: KvItem, S: SyncStore<K, V>, P: Parser<K, V>> LoadableSyncStore<K, V, S, KvFileLoader<K, V, P>> {
    /// Loads `lines`, the lines of the loader's file, with the store's strategy and the
    /// loader's parser and settings; a strategy that is neither leaves the store as it
    /// was and fails.
    pub fn load_from_loader(&mut self, lines: &Vec<String>, fresh: S) -> (r: Result<(), LoaderError>)
        requires
            old(self).inv(),
            fresh.inv(),
        ensures
            final(self).inv(),
            final(self).spec_strategy_name() == old(self).spec_strategy_name(),
            final(self).spec_loader() == old(self).spec_loader(),
            match spec_strategy(old(self).spec_strategy_name()) {
                None => final(self).contents() == old(self).contents() && (r matches Err(LoaderError::LoadFailed(m))
                    && m@ == "unknown load strategy: "@ + old(self).spec_strategy_name()),
                Some(st) => load_outcome::<K, V, P>(
                    st,
                    old(self).contents(),
                    fresh.contents(),
                    old(self).spec_loader().spec_parser(),
                    old(self).spec_loader().spec_skip_dirty_rows(),
                    views(lines@),
                    final(self).contents(),
                    r is Ok,
                ),
            },
    {
        let st = match self.strategy() {
            Ok(st) => st,
            Err(e) => return Err(e),
        };
        let stream = self.loader.stream();
        load_by(&mut self.store, st, &stream, lines, fresh)
    }
}

impl<K, V, S, L> IsSyncStore for LoadableSyncStore<K, V, S, L> {}

impl<K: KvItem, V: KvItem, S: SyncStore<K, V>, L: Loader> SyncStore<K, V> for LoadableSyncStore<K, V, S, L> {
    closed spec fn inv(&self) -> bool {
        self.store.inv()
    }

    closed spec fn contents(&self) -> Map<K::V, V::V> {
        self.store.contents()
    }

    /// Closing a loadable store keeps what was loaded readable.
    open spec fn clears_on_close() -> bool {
        false
    }

    fn set_sync(&mut self, key: &K, value: &V, options: &SetOptions) -> (r: Result<(), KvError>) {
        self.store.set_sync(key, value, options)
    }

    fn get_sync(&self, key: &K) -> (r: Result<V, KvError>) {
        self.store.get_sync(key)
    }

    fn del_sync(&mut self, key: &K) -> (r: Result<(), KvError>) {
        self.store.del_sync(key)
    }

    fn batch_set_sync(&mut self, keys: &[K], vals: &[V], options: &SetOptions) -> (r: Result<Vec<Result<(), KvError>>, KvError>) {
        self.store.batch_set_sync(keys, vals, options)
    }

    fn batch_get_sync(&self, keys: &[K]) -> (r: Result<(Vec<Option<V>>, Vec<Option<KvError>>), KvError>) {
        self.store.batch_get_sync(keys)
    }

    fn batch_del_sync(&mut self, keys: &[K]) -> (r: Result<Vec<Result<(), KvError>>, KvError>) {
        self.store.batch_del_sync(keys)
    }

    /// Closes the store: its loader's watch is turned off; the records stay
    /// readable, and the inner store is left as it is.
    fn close_sync(&mut self) -> (r: Result<(), KvError>)
        ensures
            !final(self).spec_loader().running(),
    {
        match self.loader.close() {
            Ok(()) => Ok(()),
            Err(e) => Err(KvError::Other(e.message())),
        }
    }
}

} // verus!
