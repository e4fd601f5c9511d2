//! The value decoder: byte-order sensitivity, size validation, text
//! handling, rational structure, and encode/decode round trips.
use exif::codec::{read_i16, read_i32, read_u16, read_u32, read_u8, read_i8, push_u16, push_u32};
use exif::{ByteOrder, DataType, ExifError, Rational, Value};

#[test]
fn byte_order_sensitivity() {
    let raw = [0x01u8, 0x02];
    match Value::extract(&raw, DataType::U16, 1, ByteOrder::BigEndian) {
        Ok(Value::U16(v)) => assert_eq!(v, vec![258]),
        other => panic!("unexpected result: {:?}", other),
    }
    match Value::extract(&raw, DataType::U16, 1, ByteOrder::LittleEndian) {
        Ok(Value::U16(v)) => assert_eq!(v, vec![513]),
        other => panic!("unexpected result: {:?}", other),
    }
}

#[test]
fn text_truncation() {
    let raw = b"ABC\0garbage";
    assert_eq!(raw.len(), 11);
    match Value::extract(raw, DataType::Text, 11, ByteOrder::BigEndian) {
        Ok(Value::Text(s)) => assert_eq!(s, "ABC"),
        other => panic!("unexpected result: {:?}", other),
    }
}

#[test]
fn text_without_terminator() {
    match Value::extract(b"AB", DataType::Text, 2, ByteOrder::LittleEndian) {
        Ok(Value::Text(s)) => assert_eq!(s, "AB"),
        other => panic!("unexpected result: {:?}", other),
    }
}

#[test]
fn text_leading_terminator() {
    match Value::extract(&[0u8, 65], DataType::Text, 2, ByteOrder::BigEndian) {
        Ok(Value::Text(s)) => assert_eq!(s, ""),
        other => panic!("unexpected result: {:?}", other),
    }
}

#[test]
fn text_multibyte_utf8() {
    // "é" is two bytes of UTF-8 but one character of text.
    let raw = [0xC3u8, 0xA9, 0x00];
    match Value::extract(&raw, DataType::Text, 3, ByteOrder::BigEndian) {
        Ok(Value::Text(s)) => {
            assert_eq!(s, "é");
            assert_eq!(s.chars().count(), 1);
        },
        other => panic!("unexpected result: {:?}", other),
    }
}

#[test]
fn text_invalid_utf8() {
    let raw = [0xFFu8, 0x41, 0x00];
    assert!(matches!(
        Value::extract(&raw, DataType::Text, 3, ByteOrder::BigEndian),
        Err(ExifError::Encoding)
    ));
}

#[test]
fn rational_structure() {
    let raw = [0u8, 0, 0, 42, 0, 0, 0, 100];
    match Value::extract(&raw, DataType::URational, 1, ByteOrder::BigEndian) {
        Ok(Value::URational(v)) => {
            assert_eq!(v, vec![Rational(42, 100)]);
            assert_eq!(v[0].numerator(), 42);
            assert_eq!(v[0].denominator(), 100);
        },
        other => panic!("unexpected result: {:?}", other),
    }
    assert_ne!(Rational(42u32, 100u32), Rational(21u32, 50u32));
}

#[test]
fn size_mismatch_every_format() {
    let formats = [
        DataType::Text,
        DataType::U8,
        DataType::I8,
        DataType::U16,
        DataType::I16,
        DataType::U32,
        DataType::I32,
        DataType::URational,
        DataType::IRational,
        DataType::Undefined,
    ];
    let raw = [0u8; 9];
    for format in formats {
        // 9 bytes is never 2 elements of any width among 1, 2, 4 and 8.
        assert!(matches!(
            Value::extract(&raw, format, 2, ByteOrder::BigEndian),
            Err(ExifError::SizeMismatch)
        ));
        // One byte short of one element.
        let width = format.size();
        assert!(matches!(
            Value::extract(&raw[0..width - 1], format, 1, ByteOrder::LittleEndian),
            Err(ExifError::SizeMismatch)
        ));
    }
}

#[test]
fn signed_decoding() {
    match Value::extract(&[0xFFu8], DataType::I8, 1, ByteOrder::BigEndian) {
        Ok(Value::I8(v)) => assert_eq!(v, vec![-1]),
        other => panic!("unexpected result: {:?}", other),
    }
    match Value::extract(&[0xFFu8, 0xFE], DataType::I16, 1, ByteOrder::BigEndian) {
        Ok(Value::I16(v)) => assert_eq!(v, vec![-2]),
        other => panic!("unexpected result: {:?}", other),
    }
    match Value::extract(&[0x80u8, 0x00, 0x00, 0x00], DataType::I32, 1, ByteOrder::BigEndian) {
        Ok(Value::I32(v)) => assert_eq!(v, vec![i32::MIN]),
        other => panic!("unexpected result: {:?}", other),
    }
}

fn roundtrip(value: Value, format: DataType, components: usize, order: ByteOrder) {
    let raw = value.encode(order);
    assert_eq!(raw.len(), format.size() * components);
    let decoded = Value::extract(&raw, format, components, order).unwrap();
    assert_eq!(decoded, value);
}

#[test]
fn roundtrip_u8() {
    for order in [ByteOrder::BigEndian, ByteOrder::LittleEndian] {
        roundtrip(Value::U8(vec![0, 1, 255]), DataType::U8, 3, order);
    }
}

#[test]
fn roundtrip_i8() {
    for order in [ByteOrder::BigEndian, ByteOrder::LittleEndian] {
        roundtrip(Value::I8(vec![-128, -1, 0, 127]), DataType::I8, 4, order);
    }
}

#[test]
fn roundtrip_u16() {
    for order in [ByteOrder::BigEndian, ByteOrder::LittleEndian] {
        roundtrip(Value::U16(vec![0, 258, 0xFFFF]), DataType::U16, 3, order);
    }
}

#[test]
fn roundtrip_i16() {
    for order in [ByteOrder::BigEndian, ByteOrder::LittleEndian] {
        roundtrip(Value::I16(vec![i16::MIN, -2, 0, i16::MAX]), DataType::I16, 4, order);
    }
}

#[test]
fn roundtrip_u32() {
    for order in [ByteOrder::BigEndian, ByteOrder::LittleEndian] {
        roundtrip(Value::U32(vec![0, 0x12345678, u32::MAX]), DataType::U32, 3, order);
    }
}

#[test]
fn roundtrip_i32() {
    for order in [ByteOrder::BigEndian, ByteOrder::LittleEndian] {
        roundtrip(Value::I32(vec![i32::MIN, -1, 0, i32::MAX]), DataType::I32, 4, order);
    }
}

#[test]
fn roundtrip_urational() {
    for order in [ByteOrder::BigEndian, ByteOrder::LittleEndian] {
        roundtrip(
            Value::URational(vec![Rational(42, 100), Rational(0, u32::MAX)]),
            DataType::URational,
            2,
            order,
        );
    }
}

#[test]
fn roundtrip_irational() {
    for order in [ByteOrder::BigEndian, ByteOrder::LittleEndian] {
        roundtrip(
            Value::IRational(vec![Rational(-1, 2), Rational(i32::MIN, i32::MAX)]),
            DataType::IRational,
            2,
            order,
        );
    }
}

#[test]
fn roundtrip_undefined() {
    for order in [ByteOrder::BigEndian, ByteOrder::LittleEndian] {
        roundtrip(Value::Undefined(vec![7, 0, 9]), DataType::Undefined, 3, order);
    }
}

#[test]
fn roundtrip_text() {
    for order in [ByteOrder::BigEndian, ByteOrder::LittleEndian] {
        // "hello" gains its terminating zero byte: six components.
        roundtrip(Value::Text(String::from("hello")), DataType::Text, 6, order);
    }
}

#[test]
fn primitive_readers() {
    assert_eq!(read_u8(&[0xAB]), 0xAB);
    assert_eq!(read_i8(&[0xFF]), -1);
    assert_eq!(read_u16(&[0x12, 0x34], ByteOrder::BigEndian), 0x1234);
    assert_eq!(read_u16(&[0x12, 0x34], ByteOrder::LittleEndian), 0x3412);
    assert_eq!(read_i16(&[0xFF, 0xFE], ByteOrder::BigEndian), -2);
    assert_eq!(read_u32(&[0x12, 0x34, 0x56, 0x78], ByteOrder::BigEndian), 0x12345678);
    assert_eq!(read_u32(&[0x12, 0x34, 0x56, 0x78], ByteOrder::LittleEndian), 0x78563412);
    assert_eq!(read_i32(&[0xFF, 0xFF, 0xFF, 0xFF], ByteOrder::BigEndian), -1);
}

#[test]
fn primitive_writers() {
    let mut out = Vec::new();
    push_u16(&mut out, 0x1234, ByteOrder::BigEndian);
    assert_eq!(out, vec![0x12, 0x34]);
    push_u16(&mut out, 0x1234, ByteOrder::LittleEndian);
    assert_eq!(out, vec![0x12, 0x34, 0x34, 0x12]);
    let mut out = Vec::new();
    push_u32(&mut out, 0x12345678, ByteOrder::BigEndian);
    push_u32(&mut out, 0x12345678, ByteOrder::LittleEndian);
    assert_eq!(out, vec![0x12, 0x34, 0x56, 0x78, 0x78, 0x56, 0x34, 0x12]);
}
