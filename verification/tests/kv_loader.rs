use std::sync::{Arc, Mutex};

use rustx::kv::loader::api::{FileEvent, KvStream, Loader, LoaderError, LOAD_STRATEGY_INPLACE, LOAD_STRATEGY_REPLACE};
use rustx::kv::loader::empty_stream::EmptyStream;
use rustx::kv::loader::file_trigger::{FileTrigger, FileTriggerConfig};
use rustx::kv::loader::kv_file_loader::{KvFileLoader, KvFileLoaderConfig};
use rustx::kv::loader::kv_file_stream::KvFileStream;
use rustx::kv::parser::core_types::ChangeType;
use rustx::kv::parser::line_parser::{LineParser, LineParserConfig};

fn tab_parser() -> LineParser<String, String> {
    LineParser::new(LineParserConfig { separator: "\t".to_string() })
}

#[test]
fn test_empty_kv_stream() {
    let stream = EmptyStream::<String, String>::new();

    let call_count = Arc::new(Mutex::new(0));
    let call_count_clone = call_count.clone();

    let result = stream.each(&|_change_type, _key, _value| {
        let mut count = call_count_clone.lock().unwrap();
        *count += 1;
        Ok(())
    });

    assert!(result.is_ok());
    assert_eq!(*call_count.lock().unwrap(), 0);
}

#[test]
fn test_empty_kv_stream_default() {
    let stream = EmptyStream::<String, i32>::default();

    let result = stream.each(&|_change_type, _key, _value| {
        Err(LoaderError::LoadFailed("should not be called".to_string()))
    });

    assert!(result.is_ok());
}

#[test]
fn test_empty_kv_stream_cloned() {
    let stream1 = EmptyStream::<String, String>::new();
    let stream2 = stream1;

    let result = stream2.each(&|_change_type, _key, _value| Ok(()));
    assert!(result.is_ok());
}

#[test]
fn test_file_trigger_new() {
    let config = FileTriggerConfig { file_path: "/tmp/test.txt".to_string() };

    let trigger: FileTrigger<String, String> = FileTrigger::new(config).unwrap();
    assert_eq!(trigger.file_path(), "/tmp/test.txt");
}

#[test]
fn test_file_trigger_close() {
    let config = FileTriggerConfig { file_path: "/tmp/test.txt".to_string() };

    let mut trigger: FileTrigger<String, String> = FileTrigger::new(config).unwrap();

    trigger.start();
    let close_result = trigger.close();

    assert!(close_result.is_ok());
    assert!(!trigger.is_running());
}

#[test]
fn test_file_trigger_reacts_only_while_running() {
    let config = FileTriggerConfig { file_path: "/tmp/test.txt".to_string() };
    let mut trigger: FileTrigger<String, String> = FileTrigger::new(config).unwrap();
    let modified = FileEvent::Modified("/tmp/test.txt".to_string());
    assert!(!trigger.on_file_event(&modified));
    trigger.start();
    assert!(trigger.on_file_event(&modified));
    assert!(trigger.on_file_event(&FileEvent::Created("/tmp/test.txt".to_string())));
    assert!(!trigger.on_file_event(&FileEvent::Deleted("/tmp/test.txt".to_string())));
    assert!(!trigger.on_file_event(&FileEvent::Error("boom".to_string())));
    trigger.close().unwrap();
    assert!(!trigger.on_file_event(&modified));
}

fn loader_config(min: usize, max: usize) -> KvFileLoaderConfig<LineParser<String, String>> {
    KvFileLoaderConfig {
        file_path: "/tmp/test.txt".to_string(),
        parser: tab_parser(),
        skip_dirty_rows: false,
        scanner_buffer_min_size: min,
        scanner_buffer_max_size: max,
    }
}

#[test]
fn test_kv_file_loader_close() {
    let mut loader = KvFileLoader::new(loader_config(65536, 4194304)).unwrap();

    loader.start();
    let close_result = loader.close();
    assert!(close_result.is_ok());
    assert!(!loader.is_running());
}

#[test]
fn test_kv_file_loader_rejects_zero_buffer_sizes() {
    match KvFileLoader::new(loader_config(0, 10)) {
        Err(LoaderError::LoadFailed(m)) => assert_eq!(m, "scanner_buffer_min_size must be greater than 0"),
        _ => panic!("expected a refusal"),
    }
    match KvFileLoader::new(loader_config(10, 0)) {
        Err(LoaderError::LoadFailed(m)) => assert_eq!(m, "scanner_buffer_max_size must be greater than 0"),
        _ => panic!("expected a refusal"),
    }
}

#[test]
fn test_kv_file_loader_stream_settings() {
    let loader = KvFileLoader::new(loader_config(1024, 2048)).unwrap();
    let stream = loader.stream();
    assert_eq!(stream.file_path(), "/tmp/test.txt");
    assert_eq!(stream.buffer_min_size(), 1024);
    assert_eq!(stream.buffer_max_size(), 2048);
}

fn run_lines(
    stream: &KvFileStream<'_, String, String, LineParser<String, String>>,
    lines: &[&str],
    callback: &dyn Fn(ChangeType, String, String) -> Result<(), LoaderError>,
) -> Result<(), LoaderError> {
    for (i, line) in lines.iter().enumerate() {
        stream.each_line(i + 1, line, &|ct, k, v| callback(ct, k, v))?;
    }
    Ok(())
}

#[test]
fn test_kv_file_stream_basic() {
    let parser = tab_parser();
    let stream = KvFileStream::new("data.txt", &parser, false);

    let results = Arc::new(Mutex::new(Vec::new()));
    let results_clone = results.clone();

    run_lines(&stream, &["key1\tvalue1", "key2\tvalue2", "key3\tvalue3"], &|change_type, key, value| {
        let mut results = results_clone.lock().unwrap();
        results.push(format!("{}:{}:{}", change_type.code(), key, value));
        Ok(())
    })
    .unwrap();

    let results = results.lock().unwrap();
    assert_eq!(results.len(), 3);
    assert!(results.contains(&"1:key1:value1".to_string()));
    assert!(results.contains(&"1:key2:value2".to_string()));
    assert!(results.contains(&"1:key3:value3".to_string()));
}

#[test]
fn test_kv_file_stream_skip_dirty_rows() {
    let parser = tab_parser();
    let stream = KvFileStream::new("data.txt", &parser, true);

    let results = Arc::new(Mutex::new(Vec::new()));
    let results_clone = results.clone();

    run_lines(&stream, &["key1\tvalue1", "invalid_line_without_separator", "key2\tvalue2"], &|_ct, key, value| {
        if !key.is_empty() && !value.is_empty() {
            let mut results = results_clone.lock().unwrap();
            results.push(format!("{}:{}", key, value));
        }
        Ok(())
    })
    .unwrap();

    let results = results.lock().unwrap();
    assert_eq!(results.len(), 2);
    assert!(results.contains(&"key1:value1".to_string()));
    assert!(results.contains(&"key2:value2".to_string()));
}

#[test]
fn test_kv_file_stream_not_skip_dirty_rows() {
    let parser = tab_parser();
    let stream = KvFileStream::new("data.txt", &parser, false);

    let results = Arc::new(Mutex::new(Vec::new()));
    let results_clone = results.clone();

    let result = run_lines(&stream, &["key1\tvalue1", "invalid_line"], &|_ct, key, value| {
        if key.is_empty() || value.is_empty() {
            Err(LoaderError::ParserError("empty key or value".to_string()))
        } else {
            let mut results = results_clone.lock().unwrap();
            results.push(format!("{}:{}", key, value));
            Ok(())
        }
    });

    assert!(result.is_err());
}

#[test]
fn test_kv_file_stream_callback_failure_message() {
    let parser = tab_parser();
    let stream = KvFileStream::new("data.txt", &parser, false);
    let r = stream.each_line(7, "a\tb", &|_ct: ChangeType, _k: String, _v: String| {
        Err(LoaderError::LoadFailed("no".to_string()))
    });
    match r {
        Err(LoaderError::LoadFailed(m)) => assert_eq!(m, "callback failed at line 7: Load failed: no"),
        _ => panic!("expected the callback's refusal"),
    }
}

#[test]
fn test_kv_file_stream_parse_failure_message() {
    let parser: LineParser<String, i32> = LineParser::new(LineParserConfig { separator: "\t".to_string() });
    let strict = KvFileStream::new("data.txt", &parser, false);
    match strict.parse_row(3, "k\tx") {
        Err(LoaderError::ParserError(m)) => {
            assert!(m.starts_with("parse failed for line 3, content='k\tx': Parse failed: failed to parse value: "));
        },
        _ => panic!("expected a parse failure"),
    }
    let lenient = KvFileStream::new("data.txt", &parser, true);
    assert!(matches!(lenient.parse_row(3, "k\tx"), Ok(None)));
    assert!(matches!(lenient.parse_row(4, "k\t5"), Ok(Some((ChangeType::Add, _, 5)))));
}

#[test]
fn test_load_strategy_names() {
    assert_eq!(LOAD_STRATEGY_INPLACE, "inplace");
    assert_eq!(LOAD_STRATEGY_REPLACE, "replace");
    assert_eq!(LoaderError::LoadFailed("x".to_string()).message(), "Load failed: x");
}
