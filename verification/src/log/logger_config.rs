//! Logger configurations, and which loggers a (re)configuration keeps, creates or
//! looks up.

use vstd::prelude::*;

use crate::text::{lowercase, push_str, str_equal};
use super::level::{level_named, LogLevel};
use super::logger_table::{replace_on_success, LoggerTable};

verus! {

/// A component to create: the name its type is registered under, and its options as JSON text.
#[derive(Debug)]
pub struct TypeOptions {
    pub kind: String,
    /// The options, as compact JSON text.
    pub options: String,
}

/// Whether two JSON texts hold equal values by `serde_json`'s `==` (the order of an
/// object's members does not matter); texts that are not JSON are equal to nothing.
pub uninterp spec fn same_json(a: Seq<char>, b: Seq<char>) -> bool;

/// `serde_json::from_str` on both texts, then `==` on the two `serde_json::Value`s;
/// `false` when either text is not JSON. The answer depends on the texts alone.
#[verifier::external_body]
fn json_texts_equal(a: &str, b: &str) -> (r: bool)
    ensures
        r == same_json(a@, b@),
{
    match (serde_json::from_str::<serde_json::Value>(a), serde_json::from_str::<serde_json::Value>(b)) {
        (Ok(x), Ok(y)) => x == y,
        _ => false,
    }
}

/// Whether two component settings are the same: the same type, and options that are
/// the same text or hold equal JSON values.
pub open spec fn same_type_options(a: TypeOptions, b: TypeOptions) -> bool {
    a.kind@ == b.kind@ && (a.options@ == b.options@ || same_json(a.options@, b.options@))
}

impl TypeOptions {
    /// A copy of the settings.
    pub fn duplicate(&self) -> (r: Self)
        ensures
            same_type_options(r, *self),
    {
        TypeOptions { kind: self.kind.clone(), options: self.options.clone() }
    }

    /// Whether the two settings are the same.
    pub fn same_as(&self, other: &TypeOptions) -> (b: bool)
        ensures
            b == same_type_options(*self, *other),
    {
        str_equal(self.kind.as_str(), other.kind.as_str()) && (str_equal(self.options.as_str(), other.options.as_str())
            || json_texts_equal(self.options.as_str(), other.options.as_str()))
    }
}

/// The settings of a new logger.
#[derive(Debug)]
pub struct LoggerCreateConfig {
    /// The name of the lowest level logged; an unknown name stands for info.
    pub level: String,
    pub formatter: TypeOptions,
    pub appender: TypeOptions,
}

/// Whether two sets of logger settings are the same.
pub open spec fn same_create_config(a: LoggerCreateConfig, b: LoggerCreateConfig) -> bool {
    a.level@ == b.level@ && same_type_options(a.formatter, b.formatter) && same_type_options(a.appender, b.appender)
}

/// The level a logger configured with `name` logs from.
pub open spec fn configured_level(name: Seq<char>) -> LogLevel {
    match level_named(lowercase(name)) {
        Some(l) => l,
        None => LogLevel::Info,
    }
}

impl Default for LoggerCreateConfig {
    fn default() -> (c: Self)
        ensures
            c.level@ == "info"@,
            c.formatter.kind@ == "TextFormatter"@,
            c.formatter.options@ == "{}"@,
            c.appender.kind@ == "ConsoleAppender"@,
            c.appender.options@ == "{}"@,
    {
        LoggerCreateConfig {
            level: "info".to_owned(),
            formatter: TypeOptions { kind: "TextFormatter".to_owned(), options: "{}".to_owned() },
            appender: TypeOptions { kind: "ConsoleAppender".to_owned(), options: "{}".to_owned() },
        }
    }
}

impl LoggerCreateConfig {
    /// A copy of the settings.
    pub fn duplicate(&self) -> (r: Self)
        ensures
            same_create_config(r, *self),
    {
        LoggerCreateConfig { level: self.level.clone(), formatter: self.formatter.duplicate(), appender: self.appender.duplicate() }
    }

    /// Whether the two sets of settings are the same.
    pub fn same_as(&self, other: &LoggerCreateConfig) -> (b: bool)
        ensures
            b == same_create_config(*self, *other),
    {
        str_equal(self.level.as_str(), other.level.as_str()) && self.formatter.same_as(&other.formatter)
            && self.appender.same_as(&other.appender)
    }

    /// The level the logger logs from: the configured name in any case, or info.
    pub fn log_level(&self) -> (l: LogLevel)
        ensures
            l == configured_level(self.level@),
    {
        match LogLevel::from_str(self.level.as_str()) {
            Ok(l) => l,
            Err(_) => LogLevel::Info,
        }
    }
}

/// How a logger is configured: by naming an existing instance, or by its settings.
#[derive(Debug)]
pub enum LoggerConfig {
    Reference { instance: String },
    Create(LoggerCreateConfig),
}

impl Default for LoggerConfig {
    fn default() -> (c: Self)
        ensures
            c matches LoggerConfig::Create(cc) && cc.level@ == "info"@ && cc.formatter.kind@ == "TextFormatter"@
                && cc.appender.kind@ == "ConsoleAppender"@,
    {
        LoggerConfig::Create(LoggerCreateConfig::default())
    }
}

/// The configuration of a set of loggers: the default one and the named ones.
#[derive(Debug)]
pub struct LoggerManagerConfig {
    pub default: LoggerConfig,
    /// The named loggers; a configuration names each once (`names_distinct`), as a
    /// configuration read from a file, whose loggers form a map, always does.
    pub loggers: Vec<(String, LoggerConfig)>,
}

/// Whether no name comes twice among `loggers`.
pub open spec fn names_distinct(loggers: Seq<(String, LoggerConfig)>) -> bool {
    forall|a: int, b: int| 0 <= a < b < loggers.len() ==> #[trigger] loggers[a].0@ != #[trigger] loggers[b].0@
}

impl Default for LoggerManagerConfig {
    fn default() -> (c: Self)
        ensures
            c.default matches LoggerConfig::Create(cc) && cc.level@ == "info"@,
            c.loggers@.len() == 0,
    {
        LoggerManagerConfig { default: LoggerConfig::default(), loggers: Vec::new() }
    }
}

/// The settings an earlier configuration gave `key`, the first entry of that name.
pub open spec fn config_of(loggers: Seq<(String, LoggerConfig)>, key: Seq<char>) -> Option<LoggerConfig>
    decreases loggers.len(),
{
    if loggers.len() == 0 {
        None
    } else if loggers[0].0@ == key {
        Some(loggers[0].1)
    } else {
        config_of(loggers.drop_first(), key)
    }
}

/// The entry of the earlier configuration for `key`.
fn find_config<'a>(loggers: &'a Vec<(String, LoggerConfig)>, key: &str) -> (r: Option<&'a LoggerConfig>)
    ensures
        match config_of(loggers@, key@) {
            Some(c) => r == Some(&c),
            None => r is None,
        },
{
    let mut i: usize = 0;
    proof {
        assert(loggers@.skip(0) =~= loggers@);
    }
    while i < loggers.len()
        invariant
            i <= loggers@.len(),
            config_of(loggers@, key@) == config_of(loggers@.skip(i as int), key@),
        decreases loggers@.len() - i,
    {
        proof {
            assert(loggers@.skip(i as int)[0] == loggers@[i as int]);
            assert(loggers@.skip(i as int).drop_first() =~= loggers@.skip(i + 1));
        }
        if str_equal(loggers[i].0.as_str(), key) {
            return Some(&loggers[i].1);
        }
        i += 1;
    }
    None
}

/// With distinct names, the settings found for a name are those of its entry.
pub proof fn lemma_config_of_entry(loggers: Seq<(String, LoggerConfig)>, i: int)
    requires
        0 <= i < loggers.len(),
        forall|a: int, b: int| 0 <= a < b < loggers.len() ==> #[trigger] loggers[a].0@ != #[trigger] loggers[b].0@,
    ensures
        config_of(loggers, loggers[i].0@) == Some(loggers[i].1),
    decreases i,
{
    if i > 0 {
        let rest = loggers.drop_first();
        assert(loggers[0].0@ != loggers[i].0@);
        assert(rest[i - 1] == loggers[i]);
        assert forall|a: int, b: int| 0 <= a < b < rest.len() implies #[trigger] rest[a].0@ != #[trigger] rest[b].0@ by {
            assert(rest[a] == loggers[a + 1] && rest[b] == loggers[b + 1]);
        }
        lemma_config_of_entry(rest, i - 1);
    }
}

/// Where the instance a name gets comes from once a configuration is applied. The
/// positions are those of the configuration's named loggers.
#[derive(Debug, Clone, Copy, PartialEq, Eq, Structural)]
pub enum LoggerSource {
    /// The instance the earlier loggers hold under the name at this position.
    Kept(usize),
    /// A new instance, made from the settings at this position.
    Create(usize),
    /// The registered instance that the reference at this position names.
    Registered(usize),
    /// The earlier default instance.
    KeptDefault,
    /// A new instance, made from the default's settings.
    CreateDefault,
    /// The registered instance that the default's reference names.
    RegisteredDefault,
}

/// The configuration that was applied before, if any.
pub open spec fn earlier_config<A>(old: Option<(&LoggerManagerConfig, &LoggerTable<A>)>) -> Option<LoggerManagerConfig> {
    match old {
        Some((c, _)) => Some(*c),
        None => None,
    }
}

/// The names the earlier loggers hold.
pub open spec fn earlier_names<A>(old: Option<(&LoggerManagerConfig, &LoggerTable<A>)>) -> Set<Seq<char>> {
    match old {
        Some((_, t)) => t.spec_map().dom(),
        None => Set::empty(),
    }
}

/// Whether a logger with settings `c` under `key` keeps its earlier instance: the
/// earlier configuration gave `key` the same settings, and the earlier loggers still
/// hold `key`.
pub open spec fn keeps(old: Option<LoggerManagerConfig>, old_names: Set<Seq<char>>, key: Seq<char>, c: LoggerCreateConfig) -> bool {
    &&& old matches Some(o)
    &&& config_of(o.loggers@, key) matches Some(LoggerConfig::Create(oc))
    &&& same_create_config(oc, c)
    &&& old_names.contains(key)
}

/// What the loggers with settings get, in order: their earlier instance when they keep
/// it, else a new one; a later entry of a name replaces an earlier one.
pub open spec fn settings_sources(
    old: Option<LoggerManagerConfig>,
    old_names: Set<Seq<char>>,
    entries: Seq<(String, LoggerConfig)>,
) -> Map<Seq<char>, LoggerSource>
    decreases entries.len(),
{
    if entries.len() == 0 {
        Map::empty()
    } else {
        let j = entries.len() - 1;
        let m = settings_sources(old, old_names, entries.drop_last());
        match entries[j].1 {
            LoggerConfig::Create(c) => m.insert(
                entries[j].0@,
                if keeps(old, old_names, entries[j].0@, c) {
                    LoggerSource::Kept(j as usize)
                } else {
                    LoggerSource::Create(j as usize)
                },
            ),
            _ => m,
        }
    }
}

/// The message for a reference to a name that no logger has.
pub open spec fn not_found(name: Seq<char>) -> Seq<char> {
    "Logger instance '"@ + name + "' not found (neither in current config nor in global manager)"@
}

/// The references among the first `n` entries resolved in order, each to what its
/// name has got so far, else to the registered logger of that name; the first
/// reference to neither gives its message.
pub open spec fn reference_sources(
    base: Map<Seq<char>, LoggerSource>,
    entries: Seq<(String, LoggerConfig)>,
    n: int,
    registered: Set<Seq<char>>,
) -> Result<Map<Seq<char>, LoggerSource>, Seq<char>>
    decreases n,
{
    if n <= 0 {
        Ok(base)
    } else {
        match reference_sources(base, entries, n - 1, registered) {
            Err(e) => Err(e),
            Ok(m) => match entries[n - 1].1 {
                LoggerConfig::Reference { instance } => if m.contains_key(instance@) {
                    Ok(m.insert(entries[n - 1].0@, m[instance@]))
                } else if registered.contains(instance@) {
                    Ok(m.insert(entries[n - 1].0@, LoggerSource::Registered((n - 1) as usize)))
                } else {
                    Err(not_found(instance@))
                },
                _ => Ok(m),
            },
        }
    }
}

/// What the default logger gets: a reference is resolved like the named ones; settings
/// equal to the earlier default's keep the earlier default, other settings make one.
pub open spec fn default_source(
    m: Map<Seq<char>, LoggerSource>,
    old: Option<LoggerManagerConfig>,
    d: LoggerConfig,
    registered: Set<Seq<char>>,
) -> Result<LoggerSource, Seq<char>> {
    match d {
        LoggerConfig::Reference { instance } => if m.contains_key(instance@) {
            Ok(m[instance@])
        } else if registered.contains(instance@) {
            Ok(LoggerSource::RegisteredDefault)
        } else {
            Err(not_found(instance@))
        },
        LoggerConfig::Create(c) => Ok(
            if (old matches Some(o) && o.default matches LoggerConfig::Create(oc) && same_create_config(oc, c)) {
                LoggerSource::KeptDefault
            } else {
                LoggerSource::CreateDefault
            },
        ),
    }
}

/// What every configured name and the default get, or the message of the first
/// reference that cannot be resolved.
pub open spec fn all_sources(
    base: Map<Seq<char>, LoggerSource>,
    old: Option<LoggerManagerConfig>,
    new: LoggerManagerConfig,
    registered: Set<Seq<char>>,
) -> Result<(Map<Seq<char>, LoggerSource>, LoggerSource), Seq<char>> {
    match reference_sources(base, new.loggers@, new.loggers@.len() as int, registered) {
        Err(e) => Err(e),
        Ok(m) => match default_source(m, old, new.default, registered) {
            Ok(d) => Ok((m, d)),
            Err(e) => Err(e),
        },
    }
}

/// What the loggers with settings of `new` get, when `old` (the configuration applied
/// before, and the loggers kept since) is replaced by it. The default's entry is left
/// to `resolve_references`.
pub fn settings_sources_of<A>(old: Option<(&LoggerManagerConfig, &LoggerTable<A>)>, new: &LoggerManagerConfig) -> (t: LoggerTable<
    LoggerSource,
>)
    requires
        old matches Some((_, ot)) ==> ot.wf(),
    ensures
        t.wf(),
        t.spec_map() == settings_sources(earlier_config(old), earlier_names(old), new.loggers@),
        t.spec_default() == LoggerSource::CreateDefault,
{
    let ghost oc = earlier_config(old);
    let ghost on = earlier_names(old);
    let ghost entries = new.loggers@;
    let mut t = LoggerTable::new(LoggerSource::CreateDefault);
    let mut j: usize = 0;
    proof {
        assert(entries.take(0) =~= Seq::<(String, LoggerConfig)>::empty());
    }
    while j < new.loggers.len()
        invariant
            entries == new.loggers@,
            oc == earlier_config(old),
            on == earlier_names(old),
            old matches Some((_, ot)) ==> ot.wf(),
            j <= entries.len(),
            t.wf(),
            t.spec_map() == settings_sources(oc, on, entries.take(j as int)),
            t.spec_default() == LoggerSource::CreateDefault,
        decreases entries.len() - j,
    {
        proof {
            assert(entries.take(j + 1).drop_last() =~= entries.take(j as int));
            assert(entries.take(j + 1)[j as int] == entries[j as int]);
        }
        let key = &new.loggers[j].0;
        match &new.loggers[j].1 {
            LoggerConfig::Create(c) => {
                let keep = match old {
                    Some((prev, table)) => match find_config(&prev.loggers, key.as_str()) {
                        Some(LoggerConfig::Create(pc)) => pc.same_as(c) && table.contains(key.as_str()),
                        _ => false,
                    },
                    None => false,
                };
                let source = if keep {
                    LoggerSource::Kept(j)
                } else {
                    LoggerSource::Create(j)
                };
                t.add(key.clone(), source);
            },
            LoggerConfig::Reference { .. } => {},
        }
        j += 1;
    }
    proof {
        assert(entries.take(j as int) =~= entries);
    }
    t
}

/// Once a reference fails, the later entries change nothing.
proof fn lemma_reference_sources_stop(
    base: Map<Seq<char>, LoggerSource>,
    entries: Seq<(String, LoggerConfig)>,
    j: int,
    n: int,
    registered: Set<Seq<char>>,
)
    requires
        0 <= j <= n,
        reference_sources(base, entries, j, registered) is Err,
    ensures
        reference_sources(base, entries, n, registered) == reference_sources(base, entries, j, registered),
    decreases n,
{
    if j < n {
        lemma_reference_sources_stop(base, entries, j, n - 1, registered);
    }
}

/// The instance of `name` as resolved so far: what the configuration gave it, else the
/// registered one.
fn lookup_source<B>(
    t: &LoggerTable<LoggerSource>,
    registered: &LoggerTable<B>,
    name: &str,
    registered_source: LoggerSource,
) -> (r: Option<LoggerSource>)
    requires
        t.wf(),
        registered.wf(),
    ensures
        r == if t.spec_map().contains_key(name@) {
            Some(t.spec_map()[name@])
        } else if registered.spec_map().contains_key(name@) {
            Some(registered_source)
        } else {
            None::<LoggerSource>
        },
{
    match t.get(name) {
        Some(s) => Some(*s),
        None => if registered.contains(name) {
            Some(registered_source)
        } else {
            None
        },
    }
}

/// The message for a reference to a name that no logger has.
fn not_found_message(name: &str) -> (m: String)
    ensures
        m@ == not_found(name@),
{
    let mut m = "Logger instance '".to_owned();
    push_str(&mut m, name);
    push_str(&mut m, "' not found (neither in current config nor in global manager)");
    m
}

/// Resolves the references of `new` in order, and then its default, on top of what
/// its loggers with settings got (`base`, from `settings_sources_of`). `old` is the
/// configuration applied before, if any; `registered` holds the loggers that a name
/// the configuration does not give can still reach.
pub fn resolve_references<B>(
    base: LoggerTable<LoggerSource>,
    old: Option<&LoggerManagerConfig>,
    new: &LoggerManagerConfig,
    registered: &LoggerTable<B>,
) -> (r: Result<LoggerTable<LoggerSource>, String>)
    requires
        base.wf(),
        registered.wf(),
    ensures
        match all_sources(base.spec_map(), match old {
            Some(o) => Some(*o),
            None => None,
        }, *new, registered.spec_map().dom()) {
            Ok((m, d)) => r matches Ok(t) && t.wf() && t.spec_map() == m && t.spec_default() == d,
            Err(e) => r matches Err(s) && s@ == e,
        },
{
    let ghost entries = new.loggers@;
    let ghost b = base.spec_map();
    let ghost reg = registered.spec_map().dom();
    let ghost oc = match old {
        Some(o) => Some(*o),
        None => None::<LoggerManagerConfig>,
    };
    let mut t = base;
    let mut j: usize = 0;
    while j < new.loggers.len()
        invariant
            entries == new.loggers@,
            reg == registered.spec_map().dom(),
            b == base.spec_map(),
            registered.wf(),
            j <= entries.len(),
            t.wf(),
            reference_sources(b, entries, j as int, reg) == Ok::<Map<Seq<char>, LoggerSource>, Seq<char>>(t.spec_map()),
        decreases entries.len() - j,
    {
        match &new.loggers[j].1 {
            LoggerConfig::Reference { instance } => {
                match lookup_source(&t, registered, instance.as_str(), LoggerSource::Registered(j)) {
                    Some(s) => {
                        t.add(new.loggers[j].0.clone(), s);
                    },
                    None => {
                        let m = not_found_message(instance.as_str());
                        proof {
                            assert(entries[j as int].1 == new.loggers[j as int].1);
                            assert(reference_sources(b, entries, j + 1, reg) == Err::<Map<Seq<char>, LoggerSource>, Seq<char>>(m@));
                            lemma_reference_sources_stop(b, entries, j + 1, entries.len() as int, reg);
                        }
                        return Err(m);
                    },
                }
            },
            LoggerConfig::Create(_) => {},
        }
        j += 1;
    }
    let d = match &new.default {
        LoggerConfig::Reference { instance } => match lookup_source(
            &t,
            registered,
            instance.as_str(),
            LoggerSource::RegisteredDefault,
        ) {
            Some(s) => s,
            None => return Err(not_found_message(instance.as_str())),
        },
        LoggerConfig::Create(c) => {
            let keep = match old {
                Some(o) => match &o.default {
                    LoggerConfig::Create(oc) => oc.same_as(c),
                    _ => false,
                },
                None => false,
            };
            if keep {
                LoggerSource::KeptDefault
            } else {
                LoggerSource::CreateDefault
            }
        },
    };
    t.set_default(d);
    Ok(t)
}

/// Applying a configuration again, to loggers that still hold all its names, keeps
/// every instance made from settings: each named logger with settings (names being
/// distinct) keeps its earlier instance, and so does a default with settings.
pub proof fn law_same_config_keeps_instances(
    config: LoggerManagerConfig,
    old_names: Set<Seq<char>>,
    i: int,
    m: Map<Seq<char>, LoggerSource>,
)
    requires
        0 <= i < config.loggers@.len(),
        config.loggers@[i].1 is Create,
        names_distinct(config.loggers@),
        forall|a: int| 0 <= a < config.loggers@.len() ==> old_names.contains(#[trigger] config.loggers@[a].0@),
    ensures
        settings_sources(Some(config), old_names, config.loggers@)[config.loggers@[i].0@] == LoggerSource::Kept(i as usize),
        config.default is Create ==> default_source(m, Some(config), config.default, old_names) == Ok::<
            LoggerSource,
            Seq<char>,
        >(LoggerSource::KeptDefault),
{
    lemma_config_of_entry(config.loggers@, i);
    lemma_settings_source_of_entry(Some(config), old_names, config.loggers@, i);
}

/// With distinct names, a logger with settings gets what its own entry decides.
proof fn lemma_settings_source_of_entry(
    old: Option<LoggerManagerConfig>,
    old_names: Set<Seq<char>>,
    entries: Seq<(String, LoggerConfig)>,
    i: int,
)
    requires
        0 <= i < entries.len(),
        entries[i].1 is Create,
        forall|a: int, b: int| 0 <= a < b < entries.len() ==> #[trigger] entries[a].0@ != #[trigger] entries[b].0@,
    ensures
        settings_sources(old, old_names, entries).contains_key(entries[i].0@),
        settings_sources(old, old_names, entries)[entries[i].0@] == if keeps(
            old,
            old_names,
            entries[i].0@,
            entries[i].1->Create_0,
        ) {
            LoggerSource::Kept(i as usize)
        } else {
            LoggerSource::Create(i as usize)
        },
    decreases entries.len(),
{
    let j = entries.len() - 1;
    if i < j {
        let rest = entries.drop_last();
        assert(rest[i] == entries[i]);
        assert forall|a: int, b: int| 0 <= a < b < rest.len() implies #[trigger] rest[a].0@ != #[trigger] rest[b].0@ by {
            assert(rest[a] == entries[a] && rest[b] == entries[b]);
        }
        lemma_settings_source_of_entry(old, old_names, rest, i);
        assert(entries[i].0@ != entries[j].0@);
    }
}

/// While references resolve, a name with settings keeps what it got (names being
/// distinct).
proof fn lemma_settings_name_unchanged(
    base: Map<Seq<char>, LoggerSource>,
    entries: Seq<(String, LoggerConfig)>,
    n: int,
    registered: Set<Seq<char>>,
    k: int,
    m: Map<Seq<char>, LoggerSource>,
)
    requires
        0 <= k < entries.len(),
        n <= entries.len(),
        entries[k].1 is Create,
        base.contains_key(entries[k].0@),
        forall|a: int, b: int| 0 <= a < b < entries.len() ==> #[trigger] entries[a].0@ != #[trigger] entries[b].0@,
        reference_sources(base, entries, n, registered) == Ok::<Map<Seq<char>, LoggerSource>, Seq<char>>(m),
    ensures
        m.contains_key(entries[k].0@),
        m[entries[k].0@] == base[entries[k].0@],
    decreases n,
{
    if n > 0 {
        let prev = reference_sources(base, entries, n - 1, registered);
        assert(prev is Ok);
        lemma_settings_name_unchanged(base, entries, n - 1, registered, k, prev->Ok_0);
        if entries[n - 1].1 is Reference {
            assert(n - 1 != k);
            if n - 1 < k {
                assert(entries[n - 1].0@ != entries[k].0@);
            } else {
                assert(entries[k].0@ != entries[n - 1].0@);
            }
        }
    }
}

/// Once the reference at `i` to the name with settings at `k` is resolved, it keeps
/// that name's instance (names being distinct).
proof fn lemma_reference_keeps_instance(
    base: Map<Seq<char>, LoggerSource>,
    entries: Seq<(String, LoggerConfig)>,
    n: int,
    registered: Set<Seq<char>>,
    i: int,
    k: int,
    m: Map<Seq<char>, LoggerSource>,
)
    requires
        0 <= i < n <= entries.len(),
        0 <= k < entries.len(),
        entries[k].1 is Create,
        entries[i].1 matches LoggerConfig::Reference { instance } && instance@ == entries[k].0@,
        base.contains_key(entries[k].0@),
        forall|a: int, b: int| 0 <= a < b < entries.len() ==> #[trigger] entries[a].0@ != #[trigger] entries[b].0@,
        reference_sources(base, entries, n, registered) == Ok::<Map<Seq<char>, LoggerSource>, Seq<char>>(m),
    ensures
        m.contains_key(entries[i].0@),
        m[entries[i].0@] == base[entries[k].0@],
    decreases n,
{
    let prev = reference_sources(base, entries, n - 1, registered);
    assert(prev is Ok);
    if n - 1 == i {
        lemma_settings_name_unchanged(base, entries, n - 1, registered, k, prev->Ok_0);
    } else {
        lemma_reference_keeps_instance(base, entries, n - 1, registered, i, k, prev->Ok_0);
        if entries[n - 1].1 is Reference {
            assert(entries[i].0@ != entries[n - 1].0@);
        }
    }
}

/// A name configured as a reference to a name configured with settings gets that
/// name's instance, and so does a default that refers to it (names being distinct,
/// and every reference resolved).
pub proof fn law_reference_shares_instance(
    old: Option<LoggerManagerConfig>,
    old_names: Set<Seq<char>>,
    config: LoggerManagerConfig,
    registered: Set<Seq<char>>,
    i: int,
    k: int,
)
    requires
        0 <= i < config.loggers@.len(),
        0 <= k < config.loggers@.len(),
        config.loggers@[k].1 is Create,
        config.loggers@[i].1 matches LoggerConfig::Reference { instance } && instance@ == config.loggers@[k].0@,
        names_distinct(config.loggers@),
        all_sources(settings_sources(old, old_names, config.loggers@), old, config, registered) is Ok,
    ensures
        ({
            let (m, d) = all_sources(settings_sources(old, old_names, config.loggers@), old, config, registered)->Ok_0;
            &&& m[config.loggers@[i].0@] == m[config.loggers@[k].0@]
            &&& (config.default matches LoggerConfig::Reference { instance } && instance@ == config.loggers@[k].0@)
                ==> d == m[config.loggers@[k].0@]
        }),
{
    let entries = config.loggers@;
    let base = settings_sources(old, old_names, entries);
    lemma_settings_source_of_entry(old, old_names, entries, k);
    let m = reference_sources(base, entries, entries.len() as int, registered)->Ok_0;
    lemma_settings_name_unchanged(base, entries, entries.len() as int, registered, k, m);
    lemma_reference_keeps_instance(base, entries, entries.len() as int, registered, i, k, m);
}

/// The names configured with settings among `entries`.
pub open spec fn settings_names(entries: Seq<(String, LoggerConfig)>) -> Set<Seq<char>> {
    Set::new(|k: Seq<char>| exists|i: int| 0 <= i < entries.len() && #[trigger] entries[i].0@ == k && entries[i].1 is Create)
}

/// The names configured as references among the first `n` entries.
pub open spec fn reference_names(entries: Seq<(String, LoggerConfig)>, n: int) -> Set<Seq<char>> {
    Set::new(|k: Seq<char>| exists|i: int| 0 <= i < n && #[trigger] entries[i].0@ == k && entries[i].1 is Reference)
}

/// The names of a configuration's named loggers.
pub open spec fn configured_names(entries: Seq<(String, LoggerConfig)>) -> Set<Seq<char>> {
    Set::new(|k: Seq<char>| exists|i: int| 0 <= i < entries.len() && #[trigger] entries[i].0@ == k)
}

proof fn lemma_settings_sources_names(old: Option<LoggerManagerConfig>, old_names: Set<Seq<char>>, entries: Seq<(String, LoggerConfig)>)
    ensures
        settings_sources(old, old_names, entries).dom() == settings_names(entries),
    decreases entries.len(),
{
    if entries.len() > 0 {
        let rest = entries.drop_last();
        lemma_settings_sources_names(old, old_names, rest);
        assert forall|k: Seq<char>| #[trigger] settings_names(entries).contains(k) == (settings_names(rest).contains(k) || (
            entries.last().1 is Create && entries.last().0@ == k)) by {
            if settings_names(entries).contains(k) {
                let i = choose|i: int| 0 <= i < entries.len() && #[trigger] entries[i].0@ == k && entries[i].1 is Create;
                if i < entries.len() - 1 {
                    assert(rest[i] == entries[i]);
                }
            }
            if settings_names(rest).contains(k) {
                let i = choose|i: int| 0 <= i < rest.len() && #[trigger] rest[i].0@ == k && rest[i].1 is Create;
                assert(entries[i] == rest[i]);
            }
        }
        assert(settings_sources(old, old_names, entries).dom() =~= settings_names(entries));
    } else {
        assert(settings_names(entries) =~= Set::empty());
    }
}

proof fn lemma_reference_sources_names(
    base: Map<Seq<char>, LoggerSource>,
    entries: Seq<(String, LoggerConfig)>,
    n: int,
    registered: Set<Seq<char>>,
    m: Map<Seq<char>, LoggerSource>,
)
    requires
        0 <= n <= entries.len(),
        reference_sources(base, entries, n, registered) == Ok::<Map<Seq<char>, LoggerSource>, Seq<char>>(m),
    ensures
        m.dom() == base.dom() + reference_names(entries, n),
    decreases n,
{
    if n == 0 {
        assert(reference_names(entries, 0) =~= Set::empty());
        assert(m.dom() =~= base.dom() + reference_names(entries, n));
    } else {
        let prev = reference_sources(base, entries, n - 1, registered);
        assert(prev is Ok);
        lemma_reference_sources_names(base, entries, n - 1, registered, prev->Ok_0);
        assert forall|k: Seq<char>| #[trigger] reference_names(entries, n).contains(k) == (reference_names(entries, n - 1).contains(k) || (
            entries[n - 1].1 is Reference && entries[n - 1].0@ == k)) by {
            if reference_names(entries, n).contains(k) {
                let i = choose|i: int| 0 <= i < n && #[trigger] entries[i].0@ == k && entries[i].1 is Reference;
            }
        }
        assert(m.dom() =~= base.dom() + reference_names(entries, n));
    }
}

/// A configuration whose references all resolve gives names to exactly its named
/// loggers: every configured name, and no other (names an earlier configuration had
/// and this one does not are dropped).
pub proof fn law_resolution_names_are_configured(
    old: Option<LoggerManagerConfig>,
    old_names: Set<Seq<char>>,
    config: LoggerManagerConfig,
    registered: Set<Seq<char>>,
)
    requires
        all_sources(settings_sources(old, old_names, config.loggers@), old, config, registered) is Ok,
    ensures
        all_sources(settings_sources(old, old_names, config.loggers@), old, config, registered)->Ok_0.0.dom()
            == configured_names(config.loggers@),
{
    let entries = config.loggers@;
    let base = settings_sources(old, old_names, entries);
    lemma_settings_sources_names(old, old_names, entries);
    let m = reference_sources(base, entries, entries.len() as int, registered)->Ok_0;
    lemma_reference_sources_names(base, entries, entries.len() as int, registered, m);
    assert forall|k: Seq<char>| #[trigger] configured_names(entries).contains(k) == (settings_names(entries).contains(k)
        || reference_names(entries, entries.len() as int).contains(k)) by {
        if configured_names(entries).contains(k) {
            let i = choose|i: int| 0 <= i < entries.len() && #[trigger] entries[i].0@ == k;
            if entries[i].1 is Create {
                assert(settings_names(entries).contains(k));
            } else {
                assert(reference_names(entries, entries.len() as int).contains(k));
            }
        }
        if settings_names(entries).contains(k) {
            let i = choose|i: int| 0 <= i < entries.len() && #[trigger] entries[i].0@ == k && entries[i].1 is Create;
        }
        if reference_names(entries, entries.len() as int).contains(k) {
            let i = choose|i: int| 0 <= i < entries.len() && #[trigger] entries[i].0@ == k && entries[i].1 is Reference;
        }
    }
    assert(m.dom() =~= configured_names(entries));
}

/// Whether every reference of a configuration, among its named loggers and as its
/// default, names a logger configured with settings or a registered one.
pub open spec fn references_resolvable(config: LoggerManagerConfig, registered: Set<Seq<char>>) -> bool {
    let entries = config.loggers@;
    &&& forall|i: int| 0 <= i < entries.len() ==> (#[trigger] entries[i].1 matches LoggerConfig::Reference { instance } ==> (
        settings_names(entries).contains(instance@) || registered.contains(instance@)))
    &&& (config.default matches LoggerConfig::Reference { instance } ==> (settings_names(entries).contains(instance@)
        || registered.contains(instance@)))
}

proof fn lemma_resolvable_prefix(
    base: Map<Seq<char>, LoggerSource>,
    entries: Seq<(String, LoggerConfig)>,
    n: int,
    registered: Set<Seq<char>>,
)
    requires
        0 <= n <= entries.len(),
        forall|i: int| 0 <= i < entries.len() ==> (#[trigger] entries[i].1 matches LoggerConfig::Reference { instance } ==> (
            base.dom().contains(instance@) || registered.contains(instance@))),
    ensures
        reference_sources(base, entries, n, registered) is Ok,
        base.dom() <= reference_sources(base, entries, n, registered)->Ok_0.dom(),
    decreases n,
{
    if n > 0 {
        lemma_resolvable_prefix(base, entries, n - 1, registered);
        let m = reference_sources(base, entries, n - 1, registered)->Ok_0;
        if let LoggerConfig::Reference { instance } = entries[n - 1].1 {
            assert(base.dom().contains(instance@) || registered.contains(instance@));
        }
    }
}

/// A configuration whose references each name a logger with settings or a
/// registered one resolves, and gives names to exactly its named loggers.
pub proof fn law_resolvable_references_resolve(
    old: Option<LoggerManagerConfig>,
    old_names: Set<Seq<char>>,
    config: LoggerManagerConfig,
    registered: Set<Seq<char>>,
)
    requires
        references_resolvable(config, registered),
    ensures
        all_sources(settings_sources(old, old_names, config.loggers@), old, config, registered) is Ok,
        all_sources(settings_sources(old, old_names, config.loggers@), old, config, registered)->Ok_0.0.dom()
            == configured_names(config.loggers@),
{
    let entries = config.loggers@;
    let base = settings_sources(old, old_names, entries);
    lemma_settings_sources_names(old, old_names, entries);
    assert forall|i: int| 0 <= i < entries.len() implies (#[trigger] entries[i].1 matches LoggerConfig::Reference { instance } ==> (
        base.dom().contains(instance@) || registered.contains(instance@))) by {
        if let LoggerConfig::Reference { instance } = entries[i].1 {
            assert(settings_names(entries).contains(instance@) || registered.contains(instance@));
        }
    }
    lemma_resolvable_prefix(base, entries, entries.len() as int, registered);
    law_resolution_names_are_configured(old, old_names, config, registered);
}

/// Whether `c` is a reference to `name`.
pub open spec fn refers_to(c: LoggerConfig, name: Seq<char>) -> bool {
    c matches LoggerConfig::Reference { instance } && instance@ == name
}

/// A configuration with a reference, among its named loggers or as its default, to a
/// name that none of its loggers has and no registered logger has, does not resolve.
pub proof fn law_unknown_reference_fails(
    old: Option<LoggerManagerConfig>,
    old_names: Set<Seq<char>>,
    config: LoggerManagerConfig,
    registered: Set<Seq<char>>,
    name: Seq<char>,
)
    requires
        !configured_names(config.loggers@).contains(name),
        !registered.contains(name),
        (exists|i: int| 0 <= i < config.loggers@.len() && refers_to(#[trigger] config.loggers@[i].1, name))
            || refers_to(config.default, name),
    ensures
        all_sources(settings_sources(old, old_names, config.loggers@), old, config, registered) is Err,
{
    let entries = config.loggers@;
    let base = settings_sources(old, old_names, entries);
    let n = entries.len() as int;
    lemma_settings_sources_names(old, old_names, entries);
    if all_sources(base, old, config, registered) is Ok {
        let m = reference_sources(base, entries, n, registered)->Ok_0;
        law_resolution_names_are_configured(old, old_names, config, registered);
        assert(m.dom() == configured_names(entries));
        if exists|i: int| 0 <= i < n && refers_to(#[trigger] entries[i].1, name) {
            let i = choose|i: int| 0 <= i < n && refers_to(#[trigger] entries[i].1, name);
            if reference_sources(base, entries, i, registered) is Err {
                lemma_reference_sources_stop(base, entries, i, n, registered);
            }
            if reference_sources(base, entries, i + 1, registered) is Err {
                lemma_reference_sources_stop(base, entries, i + 1, n, registered);
            }
            let mi = reference_sources(base, entries, i, registered)->Ok_0;
            lemma_reference_sources_names(base, entries, i, registered, mi);
            if mi.dom().contains(name) {
                if base.dom().contains(name) {
                    let j = choose|j: int| 0 <= j < entries.len() && #[trigger] entries[j].0@ == name && entries[j].1 is Create;
                    assert(configured_names(entries).contains(name));
                } else {
                    assert(reference_names(entries, i).contains(name));
                    let j = choose|j: int| 0 <= j < i && #[trigger] entries[j].0@ == name && entries[j].1 is Reference;
                    assert(configured_names(entries).contains(name));
                }
            }
        }
    }
}

/// Records a reload: when building the new loggers succeeded, they take the place of
/// `table`, and `new` becomes the configuration the next reload compares against; a
/// failed build leaves both exactly as they were, and its error is the result.
pub fn commit_reload<L, E>(
    config: &mut Option<LoggerManagerConfig>,
    table: &mut LoggerTable<L>,
    new: LoggerManagerConfig,
    built: Result<LoggerTable<L>, E>,
) -> (r: Result<(), E>)
    ensures
        match built {
            Ok(t) => r is Ok && *final(table) == t && *final(config) == Some(new),
            Err(e) => r == Err::<(), E>(e) && *final(table) == *old(table) && *final(config) == *old(config),
        },
{
    match replace_on_success(table, built) {
        Ok(()) => {
            *config = Some(new);
            Ok(())
        },
        Err(e) => Err(e),
    }
}

} // verus!
