pub mod level;
pub mod record;
pub mod text_formatter;
pub mod json_formatter;
pub mod console_appender;
pub mod rolling;
pub mod logger_config;
pub mod logger_table;
