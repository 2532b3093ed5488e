use std::fmt;

use prost::bytes::{Buf, BufMut};
use prost::encoding::{self, DecodeContext, WireType};
use serde::de::{self, IgnoredAny, MapAccess, SeqAccess, Visitor};
use serde::ser::SerializeStruct;
use serde::{Deserialize, Deserializer, Serialize, Serializer as SerdeSerializer};

use rustx::kv::serializer::api::SerializerError;
use rustx::kv::serializer::bson_serializer::{BsonSerializer, BsonSerializerConfig};
use rustx::kv::serializer::json_serializer::{JsonSerializer, JsonSerializerConfig};
use rustx::kv::serializer::msgpack_serializer::{MsgPackSerializer, MsgPackSerializerConfig};
use rustx::kv::serializer::protobuf_serializer::{ProtobufSerializer, ProtobufSerializerConfig};

#[derive(Debug, PartialEq, Clone)]
struct TestData {
    name: String,
    age: u32,
}

impl Serialize for TestData {
    fn serialize<S: SerdeSerializer>(&self, s: S) -> Result<S::Ok, S::Error> {
        let mut st = s.serialize_struct("TestData", 2)?;
        st.serialize_field("name", &self.name)?;
        st.serialize_field("age", &self.age)?;
        st.end()
    }
}

struct TestDataVisitor;

impl<'de> Visitor<'de> for TestDataVisitor {
    type Value = TestData;

    fn expecting(&self, f: &mut fmt::Formatter) -> fmt::Result {
        f.write_str("a TestData")
    }

    fn visit_map<A: MapAccess<'de>>(self, mut m: A) -> Result<TestData, A::Error> {
        let mut name: Option<String> = None;
        let mut age: Option<u32> = None;
        while let Some(k) = m.next_key::<String>()? {
            match k.as_str() {
                "name" => name = Some(m.next_value()?),
                "age" => age = Some(m.next_value()?),
                _ => {
                    let _: IgnoredAny = m.next_value()?;
                },
            }
        }
        Ok(TestData {
            name: name.ok_or_else(|| de::Error::missing_field("name"))?,
            age: age.ok_or_else(|| de::Error::missing_field("age"))?,
        })
    }

    fn visit_seq<A: SeqAccess<'de>>(self, mut s: A) -> Result<TestData, A::Error> {
        let name = s.next_element()?.ok_or_else(|| de::Error::invalid_length(0, &self))?;
        let age = s.next_element()?.ok_or_else(|| de::Error::invalid_length(1, &self))?;
        Ok(TestData { name, age })
    }
}

impl<'de> Deserialize<'de> for TestData {
    fn deserialize<D: Deserializer<'de>>(d: D) -> Result<Self, D::Error> {
        d.deserialize_struct("TestData", &["name", "age"], TestDataVisitor)
    }
}

#[derive(Debug, PartialEq, Clone)]
struct BsonData {
    name: String,
    age: u32,
    active: bool,
}

impl Serialize for BsonData {
    fn serialize<S: SerdeSerializer>(&self, s: S) -> Result<S::Ok, S::Error> {
        let mut st = s.serialize_struct("TestData", 3)?;
        st.serialize_field("name", &self.name)?;
        st.serialize_field("age", &self.age)?;
        st.serialize_field("active", &self.active)?;
        st.end()
    }
}

struct BsonDataVisitor;

impl<'de> Visitor<'de> for BsonDataVisitor {
    type Value = BsonData;

    fn expecting(&self, f: &mut fmt::Formatter) -> fmt::Result {
        f.write_str("a TestData")
    }

    fn visit_map<A: MapAccess<'de>>(self, mut m: A) -> Result<BsonData, A::Error> {
        let mut name: Option<String> = None;
        let mut age: Option<u32> = None;
        let mut active: Option<bool> = None;
        while let Some(k) = m.next_key::<String>()? {
            match k.as_str() {
                "name" => name = Some(m.next_value()?),
                "age" => age = Some(m.next_value()?),
                "active" => active = Some(m.next_value()?),
                _ => {
                    let _: IgnoredAny = m.next_value()?;
                },
            }
        }
        Ok(BsonData {
            name: name.ok_or_else(|| de::Error::missing_field("name"))?,
            age: age.ok_or_else(|| de::Error::missing_field("age"))?,
            active: active.ok_or_else(|| de::Error::missing_field("active"))?,
        })
    }
}

impl<'de> Deserialize<'de> for BsonData {
    fn deserialize<D: Deserializer<'de>>(d: D) -> Result<Self, D::Error> {
        d.deserialize_struct("TestData", &["name", "age", "active"], BsonDataVisitor)
    }
}

#[test]
fn test_json_serializer() {
    let config = JsonSerializerConfig::default();
    let serializer = JsonSerializer::new(config);

    let data = TestData { name: "Alice".to_string(), age: 30 };

    let bytes = serializer.serialize(data.clone()).unwrap();

    let deserialized: TestData = serializer.deserialize(bytes).unwrap();

    assert_eq!(data, deserialized);
}

#[test]
fn test_json_serializer_pretty() {
    let config = JsonSerializerConfig { pretty: true };
    let serializer = JsonSerializer::new(config);

    let data = TestData { name: "Alice".to_string(), age: 30 };

    let bytes = serializer.serialize(data).unwrap();
    let json_str = String::from_utf8(bytes).unwrap();

    assert!(json_str.contains('\n'));
}

#[test]
fn json_serializer_compact_bytes_and_bad_input() {
    let serializer: JsonSerializer<TestData> = JsonSerializer::new(JsonSerializerConfig::default());
    let bytes = serializer.serialize(TestData { name: "A".to_string(), age: 1 }).unwrap();
    assert_eq!(String::from_utf8(bytes).unwrap(), "{\"name\":\"A\",\"age\":1}");
    match serializer.deserialize(b"not json".to_vec()) {
        Err(e @ SerializerError::DeserializationFailed(_)) => assert!(e.message().starts_with("Deserialization failed: ")),
        _ => panic!("expected a refusal"),
    }
}

#[test]
fn test_bson_serializer() {
    let config = BsonSerializerConfig::default();
    let serializer = BsonSerializer::new(config);

    let data = BsonData { name: "Alice".to_string(), age: 30, active: true };

    let bytes = serializer.serialize(data.clone()).unwrap();

    let deserialized: BsonData = serializer.deserialize(bytes).unwrap();

    assert_eq!(data, deserialized);
}

#[test]
fn test_bson_serializer_with_custom_config() {
    let config = BsonSerializerConfig {};
    let serializer = BsonSerializer::new(config);

    let data = BsonData { name: "Bob".to_string(), age: 25, active: false };

    let bytes = serializer.serialize(data.clone()).unwrap();

    let deserialized: BsonData = serializer.deserialize(bytes).unwrap();

    assert_eq!(data, deserialized);
}

#[test]
fn bson_serializer_refuses_non_documents() {
    let serializer: BsonSerializer<u32> = BsonSerializer::new(BsonSerializerConfig {});
    assert!(matches!(serializer.serialize(5), Err(SerializerError::SerializationFailed(_))));
}

#[test]
fn msgpack_serializer_round_trips_both_layouts() {
    let data = TestData { name: "Carol".to_string(), age: 41 };
    let named = MsgPackSerializer::new(MsgPackSerializerConfig::default());
    let bytes = named.serialize(data.clone()).unwrap();
    assert_eq!(named.deserialize(bytes).unwrap(), data);
    let positional = MsgPackSerializer::new(MsgPackSerializerConfig { named: false });
    let bytes = positional.serialize(data.clone()).unwrap();
    assert_eq!(positional.deserialize(bytes).unwrap(), data);
}

#[derive(Debug, Clone, Default, PartialEq)]
struct User {
    name: String,
    age: i32,
    active: bool,
}

impl prost::Message for User {
    fn encode_raw(&self, buf: &mut impl BufMut) {
        encoding::string::encode(1, &self.name, buf);
        encoding::int32::encode(2, &self.age, buf);
        encoding::bool::encode(3, &self.active, buf);
    }

    fn merge_field(&mut self, tag: u32, wire_type: WireType, buf: &mut impl Buf, ctx: DecodeContext) -> Result<(), prost::DecodeError> {
        match tag {
            1 => encoding::string::merge(wire_type, &mut self.name, buf, ctx),
            2 => encoding::int32::merge(wire_type, &mut self.age, buf, ctx),
            3 => encoding::bool::merge(wire_type, &mut self.active, buf, ctx),
            _ => encoding::skip_field(wire_type, tag, buf, ctx),
        }
    }

    fn encoded_len(&self) -> usize {
        encoding::string::encoded_len(1, &self.name) + encoding::int32::encoded_len(2, &self.age)
            + encoding::bool::encoded_len(3, &self.active)
    }

    fn clear(&mut self) {
        *self = User::default();
    }
}

#[derive(Debug, Clone, Default, PartialEq)]
struct Product {
    id: i64,
    name: String,
    price: f64,
    tags: Vec<String>,
}

impl prost::Message for Product {
    fn encode_raw(&self, buf: &mut impl BufMut) {
        encoding::int64::encode(1, &self.id, buf);
        encoding::string::encode(2, &self.name, buf);
        encoding::double::encode(3, &self.price, buf);
        encoding::string::encode_repeated(4, &self.tags, buf);
    }

    fn merge_field(&mut self, tag: u32, wire_type: WireType, buf: &mut impl Buf, ctx: DecodeContext) -> Result<(), prost::DecodeError> {
        match tag {
            1 => encoding::int64::merge(wire_type, &mut self.id, buf, ctx),
            2 => encoding::string::merge(wire_type, &mut self.name, buf, ctx),
            3 => encoding::double::merge(wire_type, &mut self.price, buf, ctx),
            4 => encoding::string::merge_repeated(wire_type, &mut self.tags, buf, ctx),
            _ => encoding::skip_field(wire_type, tag, buf, ctx),
        }
    }

    fn encoded_len(&self) -> usize {
        encoding::int64::encoded_len(1, &self.id) + encoding::string::encoded_len(2, &self.name)
            + encoding::double::encoded_len(3, &self.price) + encoding::string::encoded_len_repeated(4, &self.tags)
    }

    fn clear(&mut self) {
        *self = Product::default();
    }
}

#[derive(Debug, Clone, Default, PartialEq)]
struct Order {
    id: i64,
    user: Option<User>,
    products: Vec<Product>,
    total_amount: f64,
    created_at: i64,
}

impl prost::Message for Order {
    fn encode_raw(&self, buf: &mut impl BufMut) {
        encoding::int64::encode(1, &self.id, buf);
        if let Some(u) = &self.user {
            encoding::message::encode(2, u, buf);
        }
        encoding::message::encode_repeated(3, &self.products, buf);
        encoding::double::encode(4, &self.total_amount, buf);
        encoding::int64::encode(5, &self.created_at, buf);
    }

    fn merge_field(&mut self, tag: u32, wire_type: WireType, buf: &mut impl Buf, ctx: DecodeContext) -> Result<(), prost::DecodeError> {
        match tag {
            1 => encoding::int64::merge(wire_type, &mut self.id, buf, ctx),
            2 => encoding::message::merge(wire_type, self.user.get_or_insert_with(User::default), buf, ctx),
            3 => encoding::message::merge_repeated(wire_type, &mut self.products, buf, ctx),
            4 => encoding::double::merge(wire_type, &mut self.total_amount, buf, ctx),
            5 => encoding::int64::merge(wire_type, &mut self.created_at, buf, ctx),
            _ => encoding::skip_field(wire_type, tag, buf, ctx),
        }
    }

    fn encoded_len(&self) -> usize {
        encoding::int64::encoded_len(1, &self.id)
            + self.user.as_ref().map_or(0, |u| encoding::message::encoded_len(2, u))
            + encoding::message::encoded_len_repeated(3, &self.products)
            + encoding::double::encoded_len(4, &self.total_amount)
            + encoding::int64::encoded_len(5, &self.created_at)
    }

    fn clear(&mut self) {
        *self = Order::default();
    }
}

#[test]
fn test_protobuf_serializer_user() {
    let config = ProtobufSerializerConfig::default();
    let serializer = ProtobufSerializer::new(config);

    let user = User { name: "Alice".to_string(), age: 30, active: true };

    let bytes = serializer.serialize(user.clone()).unwrap();

    let deserialized: User = serializer.deserialize(bytes).unwrap();

    assert_eq!(user.name, deserialized.name);
    assert_eq!(user.age, deserialized.age);
    assert_eq!(user.active, deserialized.active);
}

#[test]
fn test_protobuf_serializer_product() {
    let config = ProtobufSerializerConfig::default();
    let serializer = ProtobufSerializer::new(config);

    let product = Product {
        id: 12345,
        name: "Laptop".to_string(),
        price: 999.99,
        tags: vec!["electronics".to_string(), "computer".to_string()],
    };

    let bytes = serializer.serialize(product.clone()).unwrap();

    let deserialized: Product = serializer.deserialize(bytes).unwrap();

    assert_eq!(product.id, deserialized.id);
    assert_eq!(product.name, deserialized.name);
    assert_eq!(product.price, deserialized.price);
    assert_eq!(product.tags, deserialized.tags);
}

#[test]
fn test_protobuf_serializer_nested() {
    let config = ProtobufSerializerConfig::default();
    let serializer = ProtobufSerializer::new(config);

    let user = User { name: "Bob".to_string(), age: 25, active: true };

    let product = Product { id: 67890, name: "Phone".to_string(), price: 599.99, tags: vec!["mobile".to_string()] };

    let order = Order {
        id: 1001,
        user: Some(user.clone()),
        products: vec![product.clone()],
        total_amount: 599.99,
        created_at: 1634567890,
    };

    let bytes = serializer.serialize(order.clone()).unwrap();

    let deserialized: Order = serializer.deserialize(bytes).unwrap();

    assert_eq!(order.id, deserialized.id);
    assert_eq!(order.total_amount, deserialized.total_amount);
    assert_eq!(order.created_at, deserialized.created_at);

    let des_user = deserialized.user.unwrap();
    assert_eq!(user.name, des_user.name);
    assert_eq!(user.age, des_user.age);
    assert_eq!(user.active, des_user.active);

    assert_eq!(order.products.len(), deserialized.products.len());
    let des_product = &deserialized.products[0];
    assert_eq!(product.id, des_product.id);
    assert_eq!(product.name, des_product.name);
    assert_eq!(product.price, des_product.price);
}

#[test]
fn protobuf_serializer_refuses_truncated_bytes() {
    let serializer: ProtobufSerializer<User> = ProtobufSerializer::new(ProtobufSerializerConfig {});
    let mut bytes = serializer.serialize(User { name: "Alice".to_string(), age: 3, active: true }).unwrap();
    bytes.truncate(3);
    assert!(matches!(serializer.deserialize(bytes), Err(SerializerError::DeserializationFailed(_))));
}
