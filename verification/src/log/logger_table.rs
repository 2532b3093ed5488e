//! Named loggers and a default one, as a logger manager keeps them.

use vstd::prelude::*;

use crate::kv::store::kv_map::{distinct_keys, has_key, index_of, lemma_index_of_unique};
use crate::text::str_equal;

verus! {

/// Named loggers, each name once, and a default logger; `L` is how the caller holds
/// a logger.
pub struct LoggerTable<L> {
    names: Vec<String>,
    loggers: Vec<L>,
    default: L,
}

impl<L> LoggerTable<L> {
    /// One logger per name, and no name twice.
    pub closed spec fn wf(&self) -> bool {
        &&& self.names@.len() == self.loggers@.len()
        &&& distinct_keys(self.names@)
    }

    /// The named loggers.
    pub closed spec fn spec_map(&self) -> Map<Seq<char>, L> {
        Map::new(|k: Seq<char>| has_key(self.names@, k), |k: Seq<char>| self.loggers@[index_of(self.names@, k)])
    }

    /// The default logger.
    pub closed spec fn spec_default(&self) -> L {
        self.default
    }

    /// A table with no named logger and the given default.
    pub fn new(default: L) -> (t: Self)
        ensures
            t.wf(),
            t.spec_map() == Map::<Seq<char>, L>::empty(),
            t.spec_default() == default,
    {
        let t = LoggerTable { names: Vec::new(), loggers: Vec::new(), default };
        assert(t.spec_map() =~= Map::<Seq<char>, L>::empty());
        t
    }

    /// The position of `key`.
    fn find(&self, key: &str) -> (r: Option<usize>)
        requires
            self.wf(),
        ensures
            match r {
                Some(i) => i < self.names@.len() && self.names@[i as int]@ == key@,
                None => !has_key(self.names@, key@),
            },
    {
        let mut i: usize = 0;
        while i < self.names.len()
            invariant
                i <= self.names@.len(),
                forall|j: int| 0 <= j < i ==> self.names@[j]@ != key@,
            decreases self.names@.len() - i,
        {
            if str_equal(self.names[i].as_str(), key) {
                return Some(i);
            }
            i += 1;
        }
        None
    }

    /// The logger named `key`, if there is one.
    pub fn get(&self, key: &str) -> (r: Option<&L>)
        requires
            self.wf(),
        ensures
            match r {
                Some(l) => self.spec_map().contains_key(key@) && *l == self.spec_map()[key@],
                None => !self.spec_map().contains_key(key@),
            },
    {
        match self.find(key) {
            Some(i) => {
                proof {
                    lemma_index_of_unique(self.names@, i as int);
                }
                Some(&self.loggers[i])
            },
            None => None,
        }
    }

    /// The logger named `key`, or the default logger when there is none.
    pub fn get_or_default(&self, key: &str) -> (r: &L)
        requires
            self.wf(),
        ensures
            *r == if self.spec_map().contains_key(key@) {
                self.spec_map()[key@]
            } else {
                self.spec_default()
            },
    {
        match self.get(key) {
            Some(l) => l,
            None => &self.default,
        }
    }

    /// The default logger.
    pub fn get_default(&self) -> (r: &L)
        ensures
            *r == self.spec_default(),
    {
        &self.default
    }

    /// Makes `logger` the default; the named loggers stay.
    pub fn set_default(&mut self, logger: L)
        requires
            old(self).wf(),
        ensures
            final(self).wf(),
            final(self).spec_map() == old(self).spec_map(),
            final(self).spec_default() == logger,
    {
        self.default = logger;
    }

    /// Whether a logger is named `key`.
    pub fn contains(&self, key: &str) -> (b: bool)
        requires
            self.wf(),
        ensures
            b == self.spec_map().contains_key(key@),
    {
        self.get(key).is_some()
    }

    /// The names, each once, in the order they were first added.
    pub fn keys(&self) -> (r: Vec<String>)
        requires
            self.wf(),
        ensures
            distinct_keys(r@),
            forall|k: Seq<char>| #[trigger] has_key(r@, k) == self.spec_map().contains_key(k),
    {
        let mut r: Vec<String> = Vec::new();
        let mut i: usize = 0;
        while i < self.names.len()
            invariant
                i <= self.names@.len(),
                self.wf(),
                r@ == self.names@.take(i as int),
            decreases self.names@.len() - i,
        {
            r.push(self.names[i].clone());
            proof {
                assert(r@ =~= self.names@.take(i + 1));
            }
            i += 1;
        }
        proof {
            assert(r@ =~= self.names@);
        }
        r
    }

    /// Names `logger` `key`, in place of any logger of that name.
    pub fn add(&mut self, key: String, logger: L)
        requires
            old(self).wf(),
        ensures
            final(self).wf(),
            final(self).spec_map() == old(self).spec_map().insert(key@, logger),
            final(self).spec_default() == old(self).spec_default(),
    {
        let ghost old_names = self.names@;
        match self.find(key.as_str()) {
            Some(i) => {
                self.loggers.set(i, logger);
                proof {
                    lemma_index_of_unique(old_names, i as int);
                    assert forall|k: Seq<char>| #[trigger] has_key(old_names, k) && k != key@ implies index_of(old_names, k) != i by {
                    }
                    assert(self.spec_map() =~= old(self).spec_map().insert(key@, logger));
                }
            },
            None => {
                self.names.push(key);
                self.loggers.push(logger);
                proof {
                    let n = old_names.len() as int;
                    assert(distinct_keys(self.names@));
                    lemma_index_of_unique(self.names@, n);
                    assert forall|kk: Seq<char>| #[trigger] has_key(self.names@, kk) && kk != self.names@[n]@ implies
                        has_key(old_names, kk) && index_of(self.names@, kk) == index_of(old_names, kk) by {
                        let j = choose|j: int| 0 <= j < self.names@.len() && #[trigger] self.names@[j]@ == kk;
                        assert(j < n);
                        assert(old_names[j]@ == kk);
                        lemma_index_of_unique(old_names, j);
                        lemma_index_of_unique(self.names@, j);
                    }
                    assert forall|kk: Seq<char>| #[trigger] has_key(old_names, kk) implies has_key(self.names@, kk) by {
                        let j = choose|j: int| 0 <= j < old_names.len() && #[trigger] old_names[j]@ == kk;
                        assert(self.names@[j]@ == kk);
                    }
                    assert(self.spec_map() =~= old(self).spec_map().insert(self.names@[n]@, logger));
                }
            },
        }
    }

    /// Takes the logger named `key` out, if there is one.
    pub fn remove(&mut self, key: &str) -> (r: Option<L>)
        requires
            old(self).wf(),
        ensures
            final(self).wf(),
            final(self).spec_map() == old(self).spec_map().remove(key@),
            final(self).spec_default() == old(self).spec_default(),
            match r {
                Some(l) => old(self).spec_map().contains_key(key@) && l == old(self).spec_map()[key@],
                None => !old(self).spec_map().contains_key(key@),
            },
    {
        let ghost old_names = self.names@;
        let ghost old_loggers = self.loggers@;
        match self.find(key) {
            Some(i) => {
                self.names.remove(i);
                let l = self.loggers.remove(i);
                proof {
                    let ii = i as int;
                    lemma_index_of_unique(old_names, ii);
                    assert(distinct_keys(self.names@)) by {
                        assert forall|a: int, b: int| 0 <= a < self.names@.len() && 0 <= b < self.names@.len() && a != b implies
                            #[trigger] self.names@[a]@ != #[trigger] self.names@[b]@ by {
                            let oa = if a < ii { a } else { a + 1 };
                            let ob = if b < ii { b } else { b + 1 };
                            assert(self.names@[a] == old_names[oa]);
                            assert(self.names@[b] == old_names[ob]);
                        }
                    }
                    assert forall|kk: Seq<char>| #[trigger] has_key(self.names@, kk) implies
                        kk != key@ && has_key(old_names, kk) && {
                            let j = index_of(self.names@, kk);
                            let oj = if j < ii { j } else { j + 1 };
                            index_of(old_names, kk) == oj
                        } by {
                        let j = index_of(self.names@, kk);
                        let oj = if j < ii { j } else { j + 1 };
                        assert(self.names@[j] == old_names[oj]);
                        lemma_index_of_unique(old_names, oj);
                    }
                    assert forall|kk: Seq<char>| #[trigger] has_key(old_names, kk) && kk != key@ implies has_key(self.names@, kk) by {
                        let oj = index_of(old_names, kk);
                        assert(oj != ii);
                        let j = if oj < ii { oj } else { oj - 1 };
                        assert(self.names@[j] == old_names[oj]);
                    }
                    assert forall|kk: Seq<char>| #[trigger] has_key(self.names@, kk) implies
                        self.loggers@[index_of(self.names@, kk)] == old_loggers[index_of(old_names, kk)] by {
                        let j = index_of(self.names@, kk);
                        let oj = if j < ii { j } else { j + 1 };
                        assert(self.names@[j] == old_names[oj]);
                        lemma_index_of_unique(old_names, oj);
                    }
                    assert(self.spec_map() =~= old(self).spec_map().remove(key@));
                }
                Some(l)
            },
            None => {
                assert(self.spec_map() =~= old(self).spec_map().remove(key@));
                None
            },
        }
    }
}

/// Puts the loggers a (re)configuration built in place of `current`, when building them
/// succeeded; a failed build leaves `current` exactly as it was, and its error is the
/// result.
pub fn replace_on_success<L, E>(current: &mut LoggerTable<L>, built: Result<LoggerTable<L>, E>) -> (r: Result<(), E>)
    ensures
        match built {
            Ok(t) => r is Ok && *final(current) == t,
            Err(e) => r == Err::<(), E>(e) && *final(current) == *old(current),
        },
{
    match built {
        Ok(t) => {
            *current = t;
            Ok(())
        },
        Err(e) => Err(e),
    }
}

} // verus!
