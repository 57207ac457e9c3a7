use serde_xdr::decoder::Deserializer;
use serde_xdr::value::{Kind, Value};

#[test]
fn deserialize_false() {
    let mut deserializer = Deserializer::new(vec![0x00, 0x00, 0x00, 0x00]);

    let result = deserializer.deserialize_value(Kind::Bool).unwrap();

    assert_eq!(deserializer.position(), 4);
    assert_eq!(result, Value::Bool(false));
}

#[test]
fn deserialize_true() {
    let mut deserializer = Deserializer::new(vec![0x00, 0x00, 0x00, 0x01]);

    let result = deserializer.deserialize_value(Kind::Bool).unwrap();

    assert_eq!(deserializer.position(), 4);
    assert_eq!(result, Value::Bool(true));
}

#[test]
fn deserialize_i8() {
    let mut deserializer = Deserializer::new(vec![0xff, 0xff, 0xff, 0xfe]);

    let result = deserializer.deserialize_value(Kind::Integer8).unwrap();

    assert_eq!(deserializer.position(), 4);
    assert_eq!(result, Value::Integer8(-2));
}

#[test]
fn deserialize_i16() {
    let mut deserializer = Deserializer::new(vec![0xff, 0xff, 0xef, 0xfe]);

    let result = deserializer.deserialize_value(Kind::Integer16).unwrap();

    let value_bits: u16 = 0xeffe;
    let expected_value = -((!value_bits) as i16 + 1);

    assert_eq!(deserializer.position(), 4);
    assert_eq!(result, Value::Integer16(expected_value));
}

#[test]
fn deserialize_i32() {
    let mut deserializer = Deserializer::new(vec![0x80, 0x00, 0x00, 0x00]);

    let result = deserializer.deserialize_value(Kind::Integer32).unwrap();

    assert_eq!(deserializer.position(), 4);
    assert_eq!(result, Value::Integer32(-2_147_483_648));
}

#[test]
fn deserialize_i64() {
    let mut deserializer =
        Deserializer::new(vec![0xff, 0xff, 0xff, 0xff, 0xff, 0xff, 0xff, 0xff]);

    let result = deserializer.deserialize_value(Kind::Integer64).unwrap();

    assert_eq!(deserializer.position(), 8);
    assert_eq!(result, Value::Integer64(-1));
}

#[test]
fn deserialize_u8() {
    let mut deserializer = Deserializer::new(vec![0x00, 0x00, 0x00, 0x0e]);

    let result = deserializer.deserialize_value(Kind::UnsignedInteger8).unwrap();

    assert_eq!(deserializer.position(), 4);
    assert_eq!(result, Value::UnsignedInteger8(14));
}

#[test]
fn deserialize_u16() {
    let mut deserializer = Deserializer::new(vec![0x00, 0x00, 0x10, 0x0e]);

    let result = deserializer.deserialize_value(Kind::UnsignedInteger16).unwrap();

    assert_eq!(deserializer.position(), 4);
    assert_eq!(result, Value::UnsignedInteger16(4110));
}

#[test]
fn deserialize_u32() {
    let mut deserializer = Deserializer::new(vec![0x80, 0x00, 0x10, 0x0e]);

    let result = deserializer.deserialize_value(Kind::UnsignedInteger32).unwrap();

    assert_eq!(deserializer.position(), 4);
    assert_eq!(result, Value::UnsignedInteger32(0x8000_100e));
}

#[test]
fn deserialize_u64() {
    let mut deserializer =
        Deserializer::new(vec![0x80, 0x00, 0x00, 0x00, 0x00, 0x00, 0x00, 0x00]);

    let result = deserializer.deserialize_value(Kind::UnsignedInteger64).unwrap();

    assert_eq!(deserializer.position(), 8);
    assert_eq!(result, Value::UnsignedInteger64(0x8000_0000_0000_0000));
}

#[test]
fn deserialize_f32() {
    let mut deserializer = Deserializer::new(vec![0xbf, 0x40, 0x00, 0x00]);

    let result = deserializer.deserialize_value(Kind::Float).unwrap();

    assert_eq!(deserializer.position(), 4);
    assert_eq!(result, Value::Float((-0.75f32).to_bits()));
    match result {
        Value::Float(bits) => assert_eq!(f32::from_bits(bits), -0.75),
        other => panic!("unexpected value: {:?}", other),
    }
}

#[test]
fn deserialize_f64() {
    let mut deserializer =
        Deserializer::new(vec![0xbf, 0xe8, 0x00, 0x00, 0x00, 0x00, 0x00, 0x00]);

    let result = deserializer.deserialize_value(Kind::Double).unwrap();

    assert_eq!(deserializer.position(), 8);
    assert_eq!(result, Value::Double((-0.75f64).to_bits()));
    match result {
        Value::Double(bits) => assert_eq!(f64::from_bits(bits), -0.75),
        other => panic!("unexpected value: {:?}", other),
    }
}

#[test]
fn deserialize_str_without_padding() {
    let mut deserializer = Deserializer::new(
        vec![0x00, 0x00, 0x00, 0x03, 'H' as u8, 'i' as u8, '!' as u8, 0x00],
    );

    let result = deserializer.deserialize_value(Kind::String).unwrap();

    assert_eq!(deserializer.position(), 8);
    assert_eq!(result, Value::String("Hi!".to_string()));
}

#[test]
fn deserialize_str_with_1_byte_padding() {
    let mut deserializer = Deserializer::new(
        vec![0x00, 0x00, 0x00, 0x02, 'H' as u8, 'i' as u8, 0x00, 0x00],
    );

    let result = deserializer.deserialize_value(Kind::String).unwrap();

    assert_eq!(deserializer.position(), 8);
    assert_eq!(result, Value::String("Hi".to_string()));
}

#[test]
fn deserialize_str_with_2_byte_padding() {
    let mut deserializer = Deserializer::new(vec![
        0x00, 0x00, 0x00, 0x05,
        'H' as u8, 'e' as u8, 'l' as u8, 'l' as u8,
        'o' as u8, 0x00, 0x00, 0x00,
    ]);

    let result = deserializer.deserialize_value(Kind::String).unwrap();

    assert_eq!(deserializer.position(), 12);
    assert_eq!(result, Value::String("Hello".to_string()));
}

#[test]
fn deserialize_str_with_3_byte_padding() {
    let mut deserializer = Deserializer::new(vec![
        0x00, 0x00, 0x00, 0x04,
        'H' as u8, 'e' as u8, 'y' as u8, '!' as u8,
        0x00, 0x00, 0x00, 0x00,
    ]);

    let result = deserializer.deserialize_value(Kind::String).unwrap();

    // "Hey!" fills its word exactly, so no padding follows it: the cursor
    // stops at the end of the content.
    assert_eq!(deserializer.position(), 8);
    assert_eq!(result, Value::String("Hey!".to_string()));
}

#[test]
fn deserialize_opaque_without_padding() {
    let mut deserializer = Deserializer::new(vec![
        0x00, 0x00, 0x00, 0x08,
        0x01, 0x02, 0x03, 0x04, 0xff, 0xfe, 0xfd, 0xfc,
    ]);

    let result = deserializer.deserialize_value(Kind::Bytes).unwrap();

    let expected_bytes = vec![0x01, 0x02, 0x03, 0x04, 0xff, 0xfe, 0xfd, 0xfc];

    assert_eq!(deserializer.position(), 12);
    assert_eq!(result, Value::Bytes(expected_bytes));
}

#[test]
fn deserialize_opaque_with_1_byte_padding() {
    let mut deserializer = Deserializer::new(vec![
        0x00, 0x00, 0x00, 0x07,
        0x01, 0x02, 0x03, 0x04, 0xff, 0xfe, 0xfd, 0x00,
    ]);

    let result = deserializer.deserialize_value(Kind::Bytes).unwrap();

    let expected_bytes = vec![0x01, 0x02, 0x03, 0x04, 0xff, 0xfe, 0xfd];

    assert_eq!(deserializer.position(), 12);
    assert_eq!(result, Value::Bytes(expected_bytes));
}

#[test]
fn deserialize_opaque_with_2_byte_padding() {
    let mut deserializer = Deserializer::new(vec![
        0x00, 0x00, 0x00, 0x06,
        0x01, 0x02, 0x03, 0x04, 0xff, 0xfe, 0x00, 0x00,
    ]);

    let result = deserializer.deserialize_value(Kind::Bytes).unwrap();

    let expected_bytes = vec![0x01, 0x02, 0x03, 0x04, 0xff, 0xfe];

    assert_eq!(deserializer.position(), 12);
    assert_eq!(result, Value::Bytes(expected_bytes));
}

#[test]
fn deserialize_opaque_with_3_byte_padding() {
    let mut deserializer = Deserializer::new(vec![
        0x00, 0x00, 0x00, 0x05,
        0x01, 0x02, 0x03, 0x04, 0xff, 0x00, 0x00, 0x00,
    ]);

    let result = deserializer.deserialize_value(Kind::Bytes).unwrap();

    let expected_bytes = vec![0x01, 0x02, 0x03, 0x04, 0xff];

    assert_eq!(deserializer.position(), 12);
    assert_eq!(result, Value::Bytes(expected_bytes));
}

#[test]
fn deserialize_none() {
    let mut deserializer = Deserializer::new(vec![0x00, 0x00, 0x00, 0x00]);

    let result = deserializer.deserialize_option(Kind::UnsignedInteger32).unwrap();

    assert_eq!(deserializer.position(), 4);
    assert_eq!(result, None);
}

#[test]
fn deserialize_some() {
    let mut deserializer =
        Deserializer::new(vec![0x00, 0x00, 0x00, 0x01, 0xab, 0xcd, 0xef, 0x98]);

    let result = deserializer.deserialize_option(Kind::UnsignedInteger32).unwrap();

    assert_eq!(deserializer.position(), 8);
    assert_eq!(result, Some(Value::UnsignedInteger32(0xabcdef98)));
}

#[test]
fn deserialize_unit() {
    let mut deserializer = Deserializer::new(vec![]);

    let result = deserializer.deserialize_value(Kind::Unit).unwrap();

    assert_eq!(deserializer.position(), 0);
    assert_eq!(result, Value::Unit);
}

#[test]
fn deserialize_newtype_struct() {
    let mut deserializer = Deserializer::new(vec![0xff, 0xff, 0xff, 0xf0]);

    let result = deserializer
        .deserialize_newtype_struct("wrapper", Kind::Integer32)
        .unwrap();

    assert_eq!(deserializer.position(), 4);
    assert_eq!(result, Value::Integer32(-16));
}
