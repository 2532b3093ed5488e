use rustx::log::console_appender::{ConsoleAppender, ConsoleAppenderConfig, FileAppenderConfig, Target};
use rustx::log::json_formatter::{JsonFormatter, JsonFormatterConfig};
use rustx::log::level::LogLevel;
use rustx::log::logger_config::{
    commit_reload, resolve_references, settings_sources_of, LoggerConfig, LoggerCreateConfig, LoggerManagerConfig, LoggerSource,
    TypeOptions,
};
use rustx::log::logger_table::{replace_on_success, LoggerTable};
use rustx::log::record::{LogRecord, MetadataValue};
use serde::ser::SerializeStruct;
use rustx::log::rolling::{
    cleanup_by_count_plan, cleanup_by_time_plan, extract_sequence, seconds_placeable, file_prefix, generate_file_name, rolling_mode,
    should_rollover, size_shift_plan, RollingFileAppender, RollingFileAppenderConfig, RollingMode, RolloverPlan,
    TimePolicy,
};
use rustx::log::text_formatter::{compose_text_line, timestamp_placeable, TextFormatter, TextFormatterConfig};

const TS: i64 = 1737290096789;
const TS_TEXT: &str = "2025-01-19T12:34:56.789Z";

fn record(level: LogLevel, message: &str) -> LogRecord {
    LogRecord::new(level, message.to_string(), TS, "ThreadId(1)".to_string())
}

#[test]
fn test_log_level_from_str() {
    assert_eq!(LogLevel::from_str("trace").unwrap(), LogLevel::Trace);
    assert_eq!(LogLevel::from_str("DEBUG").unwrap(), LogLevel::Debug);
    assert_eq!(LogLevel::from_str("Info").unwrap(), LogLevel::Info);
    assert_eq!(LogLevel::from_str("WARN").unwrap(), LogLevel::Warn);
    assert_eq!(LogLevel::from_str("error").unwrap(), LogLevel::Error);
}

#[test]
fn test_log_level_from_str_invalid() {
    assert!(LogLevel::from_str("invalid").is_err());
    assert_eq!(LogLevel::from_str("invalid").unwrap_err(), "invalid log level: invalid");
}

#[test]
fn test_log_level_display() {
    assert_eq!(LogLevel::Trace.to_string(), "TRACE");
    assert_eq!(LogLevel::Debug.to_string(), "DEBUG");
    assert_eq!(LogLevel::Info.to_string(), "INFO");
    assert_eq!(LogLevel::Warn.to_string(), "WARN");
    assert_eq!(LogLevel::Error.to_string(), "ERROR");
}

#[test]
fn test_log_level_ordering() {
    assert!(LogLevel::Error > LogLevel::Warn);
    assert!(LogLevel::Warn > LogLevel::Info);
    assert!(LogLevel::Info > LogLevel::Debug);
    assert!(LogLevel::Debug > LogLevel::Trace);
}

#[test]
fn log_level_rank_matches_order() {
    let all = [LogLevel::Trace, LogLevel::Debug, LogLevel::Info, LogLevel::Warn, LogLevel::Error];
    for a in all {
        for b in all {
            assert_eq!(a.rank() < b.rank(), a < b);
            assert_eq!(a.at_least(b), a >= b);
        }
    }
    assert_eq!(LogLevel::Error.colored_name(), "\u{1b}[31mERROR\u{1b}[0m");
}

#[test]
fn test_console_appender_from_config() {
    let config = ConsoleAppenderConfig::default();
    let _appender = ConsoleAppender::from(config);
}

#[test]
fn test_default_config() {
    let config = ConsoleAppenderConfig::default();
    assert_eq!(config.target, Target::Stdout);
    assert_eq!(config.auto_flush, true);
}

#[test]
fn console_appender_keeps_settings() {
    let appender = ConsoleAppender::new(ConsoleAppenderConfig { target: Target::Stderr, auto_flush: false });
    assert_eq!(appender.target(), Target::Stderr);
    assert!(!appender.auto_flush());
}

#[test]
fn file_appender_config_default() {
    let config = FileAppenderConfig::default();
    assert_eq!(config.file_path, "app.log");
}

#[test]
fn test_config_default() {
    let config: RollingFileAppenderConfig = RollingFileAppenderConfig::default();
    assert_eq!(config.file_path, "app.log");
    assert_eq!(config.max_size, None);
    assert_eq!(config.max_files, None);
    assert!(config.compress == false);
    assert_eq!(config.time_policy, Some(TimePolicy::Hourly));
    assert_eq!(config.max_hours, None);
}

#[test]
fn test_json_formatter_from_config() {
    let config = JsonFormatterConfig::default();
    let _ = JsonFormatter::from(config);
}

#[test]
fn test_text_formatter_format() {
    let formatter = TextFormatter::new(TextFormatterConfig { colored: false });
    let record = record(LogLevel::Info, "test message");

    let formatted = formatter.format(&record).unwrap();

    assert!(formatted.contains("INFO"));
    assert!(formatted.contains("test message"));
    assert!(formatted.contains("T"));
    assert!(formatted.contains("Z"));
    assert!(formatted.contains("INFO test message"));
    assert_eq!(formatted, format!("[{}] [ThreadId(1)] INFO test message", TS_TEXT));
}

#[test]
fn test_text_formatter_with_location() {
    let formatter = TextFormatter::new(TextFormatterConfig { colored: false });
    let record = record(LogLevel::Error, "error message").with_location("file.rs".to_string(), 42);

    let formatted = formatter.format(&record).unwrap();

    assert!(formatted.contains("[file.rs:42]"));
    assert!(formatted.contains("ERROR[file.rs:42] error message"));
}

#[test]
fn test_text_formatter_thread_always_present() {
    let formatter = TextFormatter::new(TextFormatterConfig { colored: false });
    let record = record(LogLevel::Debug, "debug message");

    let formatted = formatter.format(&record).unwrap();

    assert!(formatted.contains("DEBUG debug message"));
    assert!(formatted.matches('[').count() >= 2);
}

#[test]
fn test_text_formatter_config_default() {
    let config = TextFormatterConfig::default();
    assert_eq!(config.colored, false);
}

#[test]
fn test_text_formatter_from_config() {
    let config = TextFormatterConfig { colored: false };

    let formatter = TextFormatter::from(config);
    assert_eq!(formatter.config().colored, false);
}

#[test]
fn test_text_formatter_with_metadata() {
    let formatter = TextFormatter::new(TextFormatterConfig { colored: false });
    let record = record(LogLevel::Info, "user logged in")
        .with_metadata("user_id".to_string(), MetadataValue::I64(12345))
        .with_metadata("username".to_string(), MetadataValue::String("alice".to_string()))
        .with_metadata("success".to_string(), MetadataValue::Bool(true));

    let formatted = formatter.format(&record).unwrap();

    assert!(formatted.contains("user logged in"));
    assert!(formatted.contains("user_id=12345"));
    assert!(formatted.contains("username=alice"));
    assert!(formatted.contains("success=true"));
    assert!(formatted.contains("|"));
    assert!(formatted.ends_with("user logged in | user_id=12345 username=alice success=true"));
}

#[test]
fn test_text_formatter_with_json_metadata() {
    let formatter = TextFormatter::new(TextFormatterConfig::default());
    let record = record(LogLevel::Debug, "complex data")
        .with_metadata("data".to_string(), MetadataValue::Json("{\"nested\":{\"value\":123}}".to_string()));

    let formatted = formatter.format(&record).unwrap();

    assert!(formatted.contains("complex data"));
    assert!(formatted.contains("data="));
    assert!(formatted.ends_with("data='{\"nested\":{\"value\":123}}'"));
}

#[test]
fn test_text_formatter_colored() {
    let formatter = TextFormatter::new(TextFormatterConfig { colored: true });
    let record = record(LogLevel::Error, "error message");

    let formatted = formatter.format(&record).unwrap();

    assert!(formatted.contains("ERROR"));
    assert!(formatted.contains("error message"));
}

#[test]
fn text_formatter_times_on_the_calendar() {
    let formatter = TextFormatter::new(TextFormatterConfig::default());
    let mut r = record(LogLevel::Info, "m");
    assert!(!timestamp_placeable(i64::MAX));
    r.timestamp_ms = -500;
    assert!(formatter.format(&r).unwrap().starts_with("[1969-12-31T23:59:59.500Z]"));
    r.timestamp_ms = 1737290096789;
    assert!(formatter.format(&r).unwrap().starts_with("[2025-01-19T12:34:56.789Z]"));
    r.timestamp_ms = 951782400007;
    assert!(formatter.format(&r).unwrap().starts_with("[2000-02-29T00:00:00.007Z]"));
    r.timestamp_ms = -62135596800000;
    assert!(formatter.format(&r).unwrap().starts_with("[0001-01-01T00:00:00.000Z]"));
    r.timestamp_ms = 8210266876799999;
    assert!(formatter.format(&r).unwrap().starts_with("[+262142-12-31T23:59:59.999Z]"));
    assert!(timestamp_placeable(8210266876799999));
    assert!(!timestamp_placeable(8210266876800000));
    r.timestamp_ms = -8334601228800000;
    assert!(formatter.format(&r).unwrap().starts_with("[-262143-01-01T00:00:00.000Z]"));
    assert!(timestamp_placeable(-8334601228800000));
    assert!(!timestamp_placeable(-8334601228800001));
}

#[test]
fn compose_text_line_exact() {
    let line = compose_text_line(
        "T",
        "th",
        "WARN",
        &Some("a.rs".to_string()),
        Some(7),
        "msg",
        &vec!["k".to_string(), "n".to_string()],
        &vec!["v".to_string(), "1".to_string()],
    );
    assert_eq!(line, "[T] [th] WARN[a.rs:7] msg | k=v n=1");
    let bare = compose_text_line("T", "th", "INFO", &Some("a.rs".to_string()), None, "msg", &vec![], &vec![]);
    assert_eq!(bare, "[T] [th] INFO msg");
}

#[test]
fn test_log_record_new() {
    let record = record(LogLevel::Info, "test message");

    assert_eq!(record.level, LogLevel::Info);
    assert_eq!(record.message, "test message");
    assert!(record.module.is_none());
    assert!(record.file.is_none());
    assert!(record.line.is_none());
    assert!(record.metadata.is_empty());
    assert!(!record.thread_id.is_empty());
}

#[test]
fn test_log_record_with_metadata() {
    let record = record(LogLevel::Info, "test message")
        .with_metadata("user_id".to_string(), MetadataValue::I64(12345))
        .with_metadata("username".to_string(), MetadataValue::String("alice".to_string()))
        .with_metadata("success".to_string(), MetadataValue::Bool(true));

    assert_eq!(record.metadata.len(), 3);
    assert_eq!(record.metadata[0].0, "user_id");
    assert!(matches!(record.metadata[0].1, MetadataValue::I64(12345)));
    assert_eq!(record.metadata[1].0, "username");
    assert!(matches!(record.metadata[1].1, MetadataValue::String(_)));
    assert_eq!(record.metadata[2].0, "success");
    assert!(matches!(record.metadata[2].1, MetadataValue::Bool(true)));
}

#[test]
fn test_log_record_with_location() {
    let record = record(LogLevel::Debug, "message").with_location("file.rs".to_string(), 42);

    assert_eq!(record.file, Some("file.rs".to_string()));
    assert_eq!(record.line, Some(42));
}

#[test]
fn test_log_record_with_module() {
    let record = record(LogLevel::Error, "error").with_module("my_module".to_string());

    assert_eq!(record.module, Some("my_module".to_string()));
}

#[test]
fn test_log_record_builder_pattern() {
    let record = record(LogLevel::Warn, "warning").with_module("main".to_string()).with_location("main.rs".to_string(), 10);

    assert_eq!(record.level, LogLevel::Warn);
    assert_eq!(record.module, Some("main".to_string()));
    assert_eq!(record.file, Some("main.rs".to_string()));
    assert_eq!(record.line, Some(10));
}

#[test]
fn test_metadata_value_display() {
    assert_eq!(MetadataValue::String("hello".to_string()).to_string(), "hello");
    assert_eq!(MetadataValue::I64(42).to_string(), "42");
    assert_eq!(MetadataValue::U64(100).to_string(), "100");
    assert_eq!(MetadataValue::F64(3.14f64.to_string()).to_string(), "3.14");
    assert_eq!(MetadataValue::Bool(true).to_string(), "true");
    assert_eq!(MetadataValue::Bool(false).to_string(), "false");
    assert_eq!(MetadataValue::Null.to_string(), "null");
    assert_eq!(MetadataValue::I64(-7).to_string(), "-7");
    assert_eq!(MetadataValue::Struct("{\"a\":1}".to_string()).to_string(), "'{\"a\":1}'");
}

#[test]
fn test_time_policy_current_period() {
    let policy = TimePolicy::Daily;
    let period = policy.current_period();
    assert!(period.len() > 0);
    assert!(period.contains('-'));
    assert_eq!(TimePolicy::Hourly.period_format(), "%Y-%m-%d-%H");
}

#[test]
fn current_period_shapes() {
    for (policy, len) in [(TimePolicy::Daily, 10), (TimePolicy::Hourly, 13), (TimePolicy::Minutely, 16)] {
        let period = policy.current_period();
        assert_eq!(period.len(), len);
        for (i, c) in period.chars().enumerate() {
            if i == 4 || i == 7 || i == 10 || i == 13 {
                assert_eq!(c, '-');
            } else {
                assert!(c.is_ascii_digit());
            }
        }
        let month: u32 = period[5..7].parse().unwrap();
        let day: u32 = period[8..10].parse().unwrap();
        assert!((1..=12).contains(&month) && (1..=31).contains(&day));
    }
}

#[test]
fn rolling_file_names() {
    assert_eq!(file_prefix("app.log"), "app");
    assert_eq!(file_prefix("app.txt"), "app.txt");
    assert_eq!(generate_file_name("app", "", 0), "app.log");
    assert_eq!(generate_file_name("app", "", 3), "app.log.3");
    assert_eq!(generate_file_name("app", "2025-01-19-10", 0), "app.2025-01-19-10.log");
    assert_eq!(generate_file_name("app", "2025-01-19-10", 2), "app.2025-01-19-10.log.2");
    assert_eq!(extract_sequence("app", "app.log"), Some(0));
    assert_eq!(extract_sequence("app", "app.log.12"), Some(12));
    assert_eq!(extract_sequence("app", "app.log.12.gz"), Some(12));
    assert_eq!(extract_sequence("app", "app.log.1"), Some(1));
    assert_eq!(extract_sequence("app", "app.log.2.gz"), Some(2));
    assert_eq!(extract_sequence("app", "app.log.x"), None);
    assert_eq!(extract_sequence("app", "other.log"), None);
    for n in [0usize, 1, 9, 10, 12345] {
        assert_eq!(extract_sequence("app", &generate_file_name("app", "", n)), Some(n));
    }
}

#[test]
fn rolling_decisions() {
    assert_eq!(rolling_mode(Some(TimePolicy::Daily), Some(10)), RollingMode::Both(TimePolicy::Daily, 10));
    assert_eq!(rolling_mode(None, None), RollingMode::Off);
    assert!(should_rollover(RollingMode::SizeOnly(50), 10, 40, false));
    assert!(!should_rollover(RollingMode::SizeOnly(50), 10, 39, false));
    assert!(should_rollover(RollingMode::SizeOnly(50), usize::MAX, usize::MAX, false));
    assert!(should_rollover(RollingMode::TimeOnly(TimePolicy::Hourly), 1, 0, true));
    assert!(!should_rollover(RollingMode::Off, 1000, 1000, true));

    let config = RollingFileAppenderConfig { max_size: Some(100), time_policy: None, ..Default::default() };
    let mut appender = RollingFileAppender::new(config, "test.log", 95);
    assert_eq!(appender.file_prefix(), "test");
    assert_eq!(appender.period(), "");
    assert!(appender.needs_rollover(6, ""));
    assert!(appender.needs_rollover(5, ""));
    assert!(!appender.needs_rollover(4, ""));
    match appender.rollover("") {
        RolloverPlan::ShiftAndOpen { file_name } => assert_eq!(file_name, "test.log"),
        _ => panic!("expected a shift"),
    }
    appender.opened(String::new(), 0);
    assert_eq!(appender.size(), 0);
    appender.wrote(21);
    assert_eq!(appender.size(), 21);

    let both = RollingFileAppenderConfig { max_size: Some(10), time_policy: Some(TimePolicy::Hourly), ..Default::default() };
    let mut b = RollingFileAppender::new(both, "app.log", 0);
    b.opened("2025-01-19-10".to_string(), 0);
    match b.rollover("2025-01-19-10") {
        RolloverPlan::Open { period, sequence, file_name } => {
            assert_eq!(period, "2025-01-19-10");
            assert_eq!(sequence, 1);
            assert_eq!(file_name, "app.2025-01-19-10.log.1");
        },
        _ => panic!("expected a new file"),
    }
    match b.rollover("2025-01-19-11") {
        RolloverPlan::Open { period, sequence, file_name } => {
            assert_eq!(period, "2025-01-19-11");
            assert_eq!(sequence, 0);
            assert_eq!(file_name, "app.2025-01-19-11.log");
        },
        _ => panic!("expected a new file"),
    }
}

#[test]
fn rolling_shift_and_cleanup_plans() {
    let names: Vec<String> = ["app.log.1", "app.log", "notes.txt", "app.log.2.gz"].iter().map(|s| s.to_string()).collect();
    let plan = size_shift_plan("app", &names, true);
    let moves: Vec<(String, String)> = plan.iter().map(|r| (r.from.clone(), r.to.clone())).collect();
    assert_eq!(
        moves,
        vec![
            ("app.log.2.gz".to_string(), "app.log.3".to_string()),
            ("app.log.1".to_string(), "app.log.2".to_string()),
            ("app.log".to_string(), "app.log.1".to_string()),
        ]
    );
    assert!(plan.iter().all(|r| r.compress));

    let files = vec![
        (10u128, "a".to_string()),
        (30u128, "b".to_string()),
        (20u128, "cur".to_string()),
        (25u128, "c".to_string()),
        (5u128, "d".to_string()),
    ];
    let plan = cleanup_by_count_plan(&files, "cur", 2);
    let kept: Vec<String> = plan.keep.iter().map(|f| f.1.clone()).collect();
    let removed: Vec<String> = plan.remove.iter().map(|f| f.1.clone()).collect();
    assert_eq!(kept, vec!["b".to_string(), "c".to_string()]);
    assert_eq!(removed, vec!["a".to_string(), "d".to_string()]);

    let hour: u128 = 3_600_000_000_000;
    let aged = vec![(Some(0u128), "old".to_string()), (None, "unknown".to_string()), (Some(5 * hour), "new".to_string())];
    assert_eq!(cleanup_by_time_plan(&aged, 6 * hour, 2), vec!["old".to_string()]);
    assert!(cleanup_by_time_plan(&aged, hour, 2).is_empty());
}

fn create(level: &str) -> LoggerCreateConfig {
    LoggerCreateConfig {
        level: level.to_string(),
        formatter: TypeOptions { kind: "TextFormatter".to_string(), options: "{}".to_string() },
        appender: TypeOptions { kind: "ConsoleAppender".to_string(), options: "{}".to_string() },
    }
}

fn table_of(names: &[&str]) -> LoggerTable<u32> {
    let mut t = LoggerTable::new(0u32);
    for (i, n) in names.iter().enumerate() {
        t.add(n.to_string(), i as u32 + 1);
    }
    t
}

#[test]
fn logger_resolution_keeps_unchanged_and_creates_changed() {
    let old = LoggerManagerConfig {
        default: LoggerConfig::Create(create("warn")),
        loggers: vec![
            ("main".to_string(), LoggerConfig::Create(create("info"))),
            ("db".to_string(), LoggerConfig::Create(create("debug"))),
        ],
    };
    let new = LoggerManagerConfig {
        default: LoggerConfig::Create(create("error")),
        loggers: vec![
            ("main".to_string(), LoggerConfig::Create(create("info"))),
            ("db".to_string(), LoggerConfig::Create(create("trace"))),
            ("alias".to_string(), LoggerConfig::Reference { instance: "main".to_string() }),
        ],
    };
    let earlier = table_of(&["main", "db"]);
    let registered = table_of(&[]);
    let base = settings_sources_of(Some((&old, &earlier)), &new);
    assert_eq!(base.get("main"), Some(&LoggerSource::Kept(0)));
    assert_eq!(base.get("db"), Some(&LoggerSource::Create(1)));
    assert_eq!(base.get("alias"), None);
    let all = resolve_references(base, Some(&old), &new, &registered).unwrap();
    assert_eq!(all.get("alias"), Some(&LoggerSource::Kept(0)));
    assert_eq!(all.get_default(), &LoggerSource::CreateDefault);
    assert_eq!(all.keys(), vec!["main".to_string(), "db".to_string(), "alias".to_string()]);

    let again = resolve_references(settings_sources_of(Some((&new, &earlier)), &new), Some(&new), &new, &registered).unwrap();
    assert_eq!(again.get("main"), Some(&LoggerSource::Kept(0)));
    assert_eq!(again.get("db"), Some(&LoggerSource::Kept(1)));
    assert_eq!(again.get_default(), &LoggerSource::KeptDefault);

    let gone = table_of(&["main"]);
    let partly = settings_sources_of(Some((&new, &gone)), &new);
    assert_eq!(partly.get("db"), Some(&LoggerSource::Create(1)));

    let first = settings_sources_of::<u32>(None, &old);
    assert_eq!(first.get("main"), Some(&LoggerSource::Create(0)));
    assert_eq!(first.get("db"), Some(&LoggerSource::Create(1)));
}

#[test]
fn logger_references_reach_registered_loggers_or_fail() {
    let config = LoggerManagerConfig {
        default: LoggerConfig::Reference { instance: "shared".to_string() },
        loggers: vec![
            ("a".to_string(), LoggerConfig::Reference { instance: "shared".to_string() }),
            ("b".to_string(), LoggerConfig::Reference { instance: "a".to_string() }),
        ],
    };
    let registered = table_of(&["shared"]);
    let base = settings_sources_of::<u32>(None, &config);
    let all = resolve_references(base, None, &config, &registered).unwrap();
    assert_eq!(all.get("a"), Some(&LoggerSource::Registered(0)));
    assert_eq!(all.get("b"), Some(&LoggerSource::Registered(0)));
    assert_eq!(all.get_default(), &LoggerSource::RegisteredDefault);

    let nobody = table_of(&[]);
    let base = settings_sources_of::<u32>(None, &config);
    match resolve_references(base, None, &config, &nobody) {
        Err(m) => assert_eq!(m, "Logger instance 'shared' not found (neither in current config nor in global manager)"),
        Ok(_) => panic!("expected a missing instance"),
    }
}

#[test]
fn logger_table_names_and_default() {
    let mut t = table_of(&["a", "b"]);
    assert!(t.contains("a"));
    assert_eq!(t.get_or_default("zz"), &0);
    assert_eq!(t.get_or_default("b"), &2);
    t.add("a".to_string(), 9);
    assert_eq!(t.get("a"), Some(&9));
    assert_eq!(t.keys(), vec!["a".to_string(), "b".to_string()]);
    assert_eq!(t.remove("a"), Some(9));
    assert_eq!(t.remove("a"), None);
    assert!(!t.contains("a"));
    t.set_default(7);
    assert_eq!(t.get_default(), &7);
    assert_eq!(t.keys(), vec!["b".to_string()]);
}

#[test]
fn logger_config_defaults_and_level() {
    match LoggerConfig::default() {
        LoggerConfig::Create(c) => {
            assert_eq!(c.level, "info");
            assert_eq!(c.formatter.kind, "TextFormatter");
            assert_eq!(c.appender.kind, "ConsoleAppender");
        },
        _ => panic!("expected settings"),
    }
    assert_eq!(create("DEBUG").log_level(), LogLevel::Debug);
    assert_eq!(create("loud").log_level(), LogLevel::Info);
    assert!(LoggerManagerConfig::default().loggers.is_empty());
}

#[test]
fn test_time_policy_same_period() {
    let policy = TimePolicy::Daily;
    let now = chrono::Local::now().timestamp();
    assert!(policy.is_same_period(now, now));

    let yesterday = now - 86400;
    assert!(!policy.is_same_period(now, yesterday));
}

#[test]
fn same_period_parts_by_policy() {
    let a = (2025, 1, 19, 10, 5);
    let b = (2025, 1, 19, 10, 6);
    let c = (2025, 1, 19, 11, 5);
    assert!(!TimePolicy::Minutely.same_period_parts(a, b));
    assert!(TimePolicy::Hourly.same_period_parts(a, b));
    assert!(!TimePolicy::Hourly.same_period_parts(a, c));
    assert!(TimePolicy::Daily.same_period_parts(a, c));
    assert!(!seconds_placeable(i64::MAX));
    assert!(!seconds_placeable(8210266876800));
    assert!(!seconds_placeable(-8334601228801));
    assert!(seconds_placeable(-8334601228800) && seconds_placeable(8210266876799));
    assert!(TimePolicy::Daily.is_same_period(-8334601228800, -8334601228800));
    assert!(!TimePolicy::Daily.is_same_period(8210266876799, 0));
}

struct User {
    id: i64,
    name: String,
    email: String,
}

impl serde::Serialize for User {
    fn serialize<S: serde::Serializer>(&self, serializer: S) -> Result<S::Ok, S::Error> {
        let mut s = serializer.serialize_struct("User", 3)?;
        s.serialize_field("id", &self.id)?;
        s.serialize_field("name", &self.name)?;
        s.serialize_field("email", &self.email)?;
        s.end()
    }
}

struct RequestInfo {
    endpoint: String,
    method: String,
    duration_ms: u64,
}

impl serde::Serialize for RequestInfo {
    fn serialize<S: serde::Serializer>(&self, serializer: S) -> Result<S::Ok, S::Error> {
        let mut s = serializer.serialize_struct("RequestInfo", 3)?;
        s.serialize_field("endpoint", &self.endpoint)?;
        s.serialize_field("method", &self.method)?;
        s.serialize_field("duration_ms", &self.duration_ms)?;
        s.end()
    }
}

fn struct_json(v: &MetadataValue) -> serde_json::Value {
    match v {
        MetadataValue::Struct(t) => serde_json::from_str(t).unwrap(),
        _ => panic!("expected a structure"),
    }
}

#[test]
fn test_metadata_value_from_struct() {
    let user = User { id: 12345, name: "alice".to_string(), email: "alice@example.com".to_string() };
    let metadata_value = MetadataValue::from_struct(user);
    let value = struct_json(&metadata_value);
    assert_eq!(value["id"], 12345);
    assert_eq!(value["name"], "alice");
    assert_eq!(value["email"], "alice@example.com");
}

#[test]
fn test_log_record_with_struct_metadata() {
    let request_info = RequestInfo { endpoint: "/api/users".to_string(), method: "GET".to_string(), duration_ms: 123 };
    let record = LogRecord::new(LogLevel::Info, "request completed".to_string(), 0, "main".to_string())
        .with_metadata("request".to_string(), MetadataValue::from_struct(request_info));
    assert!(record.metadata.iter().any(|(k, _)| k == "request"));
    let value = struct_json(&record.metadata[0].1);
    assert_eq!(value["endpoint"], "/api/users");
    assert_eq!(value["method"], "GET");
    assert_eq!(value["duration_ms"], 123);
}

struct Unserializable;

impl serde::Serialize for Unserializable {
    fn serialize<S: serde::Serializer>(&self, _serializer: S) -> Result<S::Ok, S::Error> {
        Err(serde::ser::Error::custom("refused"))
    }
}

#[test]
fn metadata_from_struct_that_fails_is_null() {
    assert!(matches!(MetadataValue::from_struct(Unserializable), MetadataValue::Null));
}

#[test]
fn shifting_never_renames_onto_a_waiting_file() {
    let names = vec!["x.log".to_string(), "x.log.2.gz".to_string(), "x.log.1".to_string(), "x.log.3".to_string()];
    let plan = size_shift_plan("x", &names, true);
    let order: Vec<(usize, String, String)> = plan.iter().map(|r| (r.sequence, r.from.clone(), r.to.clone())).collect();
    assert_eq!(
        order,
        vec![
            (3, "x.log.3".to_string(), "x.log.4".to_string()),
            (2, "x.log.2.gz".to_string(), "x.log.3".to_string()),
            (1, "x.log.1".to_string(), "x.log.2".to_string()),
            (0, "x.log".to_string(), "x.log.1".to_string()),
        ]
    );
    for i in 0..plan.len() {
        for j in i..plan.len() {
            assert_ne!(plan[i].to, plan[j].from);
        }
    }
}

#[test]
fn options_compare_as_json_values() {
    let a = TypeOptions { kind: "TextFormatter".to_string(), options: r#"{"colored":true,"x":1}"#.to_string() };
    let b = TypeOptions { kind: "TextFormatter".to_string(), options: r#"{"x":1,"colored":true}"#.to_string() };
    let c = TypeOptions { kind: "TextFormatter".to_string(), options: r#"{"x":2,"colored":true}"#.to_string() };
    assert!(a.same_as(&b));
    assert!(!a.same_as(&c));
    let odd = TypeOptions { kind: "TextFormatter".to_string(), options: "not json".to_string() };
    assert!(odd.same_as(&odd.duplicate()));
}

#[test]
fn resolvable_references_resolve_to_the_configured_names() {
    let config = LoggerManagerConfig {
        default: LoggerConfig::Reference { instance: "z".to_string() },
        loggers: vec![
            ("a".to_string(), LoggerConfig::Reference { instance: "z".to_string() }),
            ("z".to_string(), LoggerConfig::Create(create("info"))),
            ("r".to_string(), LoggerConfig::Reference { instance: "shared".to_string() }),
        ],
    };
    let base = settings_sources_of::<u32>(None, &config);
    let all = resolve_references(base, None, &config, &table_of(&["shared"])).unwrap();
    let mut keys = all.keys();
    keys.sort();
    assert_eq!(keys, vec!["a".to_string(), "r".to_string(), "z".to_string()]);
    assert_eq!(all.get("a"), Some(&LoggerSource::Create(1)));
    assert_eq!(all.get_default(), &LoggerSource::Create(1));
}

#[test]
fn unknown_reference_fails_and_keeps_the_loggers() {
    let config = LoggerManagerConfig {
        default: LoggerConfig::Reference { instance: "missing".to_string() },
        loggers: vec![("a".to_string(), LoggerConfig::Create(create("info")))],
    };
    let base = settings_sources_of::<u32>(None, &config);
    let resolved = resolve_references(base, None, &config, &table_of(&["other"]));
    match &resolved {
        Err(m) => assert_eq!(m, "Logger instance 'missing' not found (neither in current config nor in global manager)"),
        Ok(_) => panic!("expected a missing instance"),
    }
    let mut current = table_of(&["x", "y"]);
    let built: Result<LoggerTable<u32>, String> = resolved.map(|_| table_of(&["a"]));
    assert!(replace_on_success(&mut current, built).is_err());
    assert_eq!(current.keys(), vec!["x".to_string(), "y".to_string()]);
    assert_eq!(current.get("y"), Some(&2));

    let mut replaced = table_of(&["x"]);
    assert!(replace_on_success::<u32, String>(&mut replaced, Ok(table_of(&["a", "b"]))).is_ok());
    assert_eq!(replaced.keys(), vec!["a".to_string(), "b".to_string()]);
}

#[test]
fn compress_file_gzips_the_content() {
    let content = b"line one\nline two\n".to_vec();
    let (path, z) = rustx::log::rolling::compress_file("logs/app.log.1", &content).unwrap();
    assert_eq!(path, "logs/app.log.1.gz");
    assert_ne!(z, content);
    assert_eq!(&z[..2], &[0x1f, 0x8b]);
    let mut out = Vec::new();
    std::io::Read::read_to_end(&mut flate2::read::GzDecoder::new(&z[..]), &mut out).unwrap();
    assert_eq!(out, content);
    let (_, again) = rustx::log::rolling::compress_file("other", &content).unwrap();
    assert_eq!(again, z);
}

#[test]
fn failed_reload_keeps_configuration_and_loggers() {
    let first = LoggerManagerConfig {
        default: LoggerConfig::Create(create("info")),
        loggers: vec![("a".to_string(), LoggerConfig::Create(create("info")))],
    };
    let second = LoggerManagerConfig { default: LoggerConfig::Create(create("debug")), loggers: vec![] };
    let mut config = Some(first);
    let mut table = table_of(&["a"]);
    let failed: Result<LoggerTable<u32>, String> = Err("boom".to_string());
    let second_again = LoggerManagerConfig { default: LoggerConfig::Create(create("debug")), loggers: vec![] };
    assert_eq!(commit_reload(&mut config, &mut table, second, failed), Err("boom".to_string()));
    assert_eq!(table.keys(), vec!["a".to_string()]);
    assert_eq!(config.as_ref().unwrap().loggers.len(), 1);
    assert!(commit_reload::<u32, String>(&mut config, &mut table, second_again, Ok(table_of(&["b"]))).is_ok());
    assert_eq!(table.keys(), vec!["b".to_string()]);
    assert!(config.as_ref().unwrap().loggers.is_empty());
}
