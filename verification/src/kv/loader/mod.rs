pub mod api;
pub mod empty_stream;
pub mod kv_file_stream;
pub mod file_trigger;
pub mod kv_file_loader;
