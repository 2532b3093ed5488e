pub mod store;
pub mod parser;
pub mod loader;
pub mod serializer;
