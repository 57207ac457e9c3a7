use serde_xdr::decoder::Deserializer;
use serde_xdr::encoder::Serializer;
use serde_xdr::errors::Error;
use serde_xdr::value::{Kind, Value};

fn round_trip(value: Value, kind: Kind) {
    let mut serializer = Serializer::new();
    serializer.serialize_value(&value).unwrap();
    let bytes = serializer.into_bytes();
    assert_eq!(bytes.len() % 4, 0);
    let length = bytes.len();
    let mut deserializer = Deserializer::new(bytes);
    assert_eq!(deserializer.deserialize_value(kind).unwrap(), value);
    assert_eq!(deserializer.position(), length);
}

#[test]
fn every_kind_reads_back() {
    round_trip(Value::Bool(true), Kind::Bool);
    round_trip(Value::Integer8(-128), Kind::Integer8);
    round_trip(Value::Integer16(-300), Kind::Integer16);
    round_trip(Value::Integer32(i32::MIN), Kind::Integer32);
    round_trip(Value::Integer64(i64::MIN), Kind::Integer64);
    round_trip(Value::UnsignedInteger8(255), Kind::UnsignedInteger8);
    round_trip(Value::UnsignedInteger16(65535), Kind::UnsignedInteger16);
    round_trip(Value::UnsignedInteger32(u32::MAX), Kind::UnsignedInteger32);
    round_trip(Value::UnsignedInteger64(u64::MAX), Kind::UnsignedInteger64);
    round_trip(Value::Float(1.5f32.to_bits()), Kind::Float);
    round_trip(Value::Double(f64::NAN.to_bits()), Kind::Double);
    round_trip(Value::String("Hello".to_string()), Kind::String);
    round_trip(Value::String(String::new()), Kind::String);
    round_trip(Value::Bytes(vec![1, 2, 3]), Kind::Bytes);
    round_trip(Value::Unit, Kind::Unit);
}

#[test]
fn sequence_reads_back_to_its_length() {
    let values = vec![Value::Integer32(-20), Value::Integer32(-45), Value::Integer32(7)];
    let mut serializer = Serializer::new();
    let mut sequence = serializer.serialize_seq(Some(values.len())).unwrap();
    for value in &values {
        sequence.serialize_element(&mut serializer, value).unwrap();
    }
    sequence.end().unwrap();
    let bytes = serializer.into_bytes();
    assert_eq!(bytes.len(), 16);
    let mut deserializer = Deserializer::new(bytes);
    assert_eq!(deserializer.deserialize_seq(Kind::Integer32).unwrap(), values);
    assert_eq!(deserializer.position(), 16);
}

#[test]
fn mixed_struct_reads_back() {
    let mut serializer = Serializer::new();
    let mut fields = serializer.serialize_struct("Record", 3);
    fields.serialize_field(&mut serializer, "a", &Value::Integer32(-20)).unwrap();
    fields.serialize_field(&mut serializer, "b", &Value::String("hello".to_string())).unwrap();
    fields.serialize_field(&mut serializer, "c", &Value::Integer32(-45)).unwrap();
    fields.end().unwrap();
    let bytes = serializer.into_bytes();
    assert_eq!(bytes.len(), 20);
    let mut deserializer = Deserializer::new(bytes);
    let values = deserializer
        .deserialize_struct(&[Kind::Integer32, Kind::String, Kind::Integer32])
        .unwrap();
    assert_eq!(
        values,
        vec![Value::Integer32(-20), Value::String("hello".to_string()), Value::Integer32(-45)]
    );
    assert_eq!(deserializer.position(), 20);
}

#[test]
fn option_reads_back() {
    let mut serializer = Serializer::new();
    serializer.serialize_option(&Some(Value::UnsignedInteger32(0xABCDEF98))).unwrap();
    serializer.serialize_option(&None).unwrap();
    let bytes = serializer.into_bytes();
    assert_eq!(bytes.len(), 12);
    let mut deserializer = Deserializer::new(bytes);
    assert_eq!(
        deserializer.deserialize_option(Kind::UnsignedInteger32).unwrap(),
        Some(Value::UnsignedInteger32(0xABCDEF98))
    );
    assert_eq!(deserializer.deserialize_option(Kind::UnsignedInteger32).unwrap(), None);
    assert_eq!(deserializer.position(), 12);
}

#[test]
fn invalid_bool_is_refused() {
    let mut deserializer = Deserializer::new(vec![0, 0, 0, 2]);
    assert_eq!(deserializer.deserialize_value(Kind::Bool), Err(Error::InvalidBool));
}

#[test]
fn invalid_narrow_integers_are_refused() {
    let mut deserializer = Deserializer::new(vec![0x00, 0x00, 0x01, 0xfe]);
    assert_eq!(
        deserializer.deserialize_value(Kind::Integer8),
        Err(Error::InvalidInteger(8, 0x1fe))
    );
    let mut deserializer = Deserializer::new(vec![0xff, 0xff, 0xff, 0x7f]);
    assert_eq!(
        deserializer.deserialize_value(Kind::Integer8),
        Err(Error::InvalidInteger(8, -129))
    );
    let mut deserializer = Deserializer::new(vec![0x00, 0x01, 0x00, 0x00]);
    assert_eq!(
        deserializer.deserialize_value(Kind::Integer16),
        Err(Error::InvalidInteger(16, 0x10000))
    );
    let mut deserializer = Deserializer::new(vec![0x00, 0x00, 0x01, 0x00]);
    assert_eq!(
        deserializer.deserialize_value(Kind::UnsignedInteger8),
        Err(Error::InvalidUnsignedInteger(8, 256))
    );
    let mut deserializer = Deserializer::new(vec![0xff, 0xff, 0xff, 0xff]);
    assert_eq!(
        deserializer.deserialize_value(Kind::UnsignedInteger16),
        Err(Error::InvalidUnsignedInteger(16, u32::MAX))
    );
}

#[test]
fn short_input_is_an_unexpected_end() {
    let mut deserializer = Deserializer::new(vec![0, 0, 1]);
    assert_eq!(
        deserializer.deserialize_value(Kind::UnsignedInteger32),
        Err(Error::UnexpectedEof { position: 0, needed: 4 })
    );
    let mut deserializer = Deserializer::new(vec![0, 0, 0, 1, 0, 0, 0]);
    assert_eq!(
        deserializer.deserialize_value(Kind::Double),
        Err(Error::UnexpectedEof { position: 0, needed: 8 })
    );
    let mut deserializer = Deserializer::new(vec![0, 0, 0, 3, b'a', b'b', b'c']);
    assert_eq!(
        deserializer.deserialize_value(Kind::String),
        Err(Error::UnexpectedEof { position: 4, needed: 4 })
    );
}

#[test]
fn invalid_utf8_string_is_refused() {
    let mut deserializer = Deserializer::new(vec![0, 0, 0, 1, 0xff, 0, 0, 0]);
    assert_eq!(deserializer.deserialize_value(Kind::String), Err(Error::DeserializeString));
}

#[test]
fn padding_content_is_not_inspected() {
    let mut deserializer = Deserializer::new(vec![0, 0, 0, 1, b'x', 9, 9, 9]);
    assert_eq!(
        deserializer.deserialize_value(Kind::String).unwrap(),
        Value::String("x".to_string())
    );
    assert_eq!(deserializer.position(), 8);
}
