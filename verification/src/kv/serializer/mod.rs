pub mod api;
pub mod json_serializer;
pub mod bson_serializer;
pub mod msgpack_serializer;
pub mod protobuf_serializer;
