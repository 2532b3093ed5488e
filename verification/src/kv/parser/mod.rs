pub mod core_types;
pub mod parse_value;
pub mod line_parser;
pub mod json_cursor;
pub mod json_parser;
pub mod bson_double;
pub mod bson_cursor;
pub mod bson_parser;
