//! Entries: construction-time validation, decoding, text rendering and
//! the specification repair.
use exif::{ByteOrder, DataType, Entry, ExifError, Rational, Value};

#[test]
fn entry_new_validates_length() {
    let entry = Entry::new(274, DataType::U16, 1, vec![0, 1]).unwrap();
    assert_eq!(entry.tag().code(), 274);
    assert_eq!(entry.data_type(), DataType::U16);
    assert_eq!(entry.components(), 1);
    assert_eq!(entry.raw_data(), &[0, 1]);
    assert!(matches!(
        Entry::new(274, DataType::U16, 2, vec![0, 1]),
        Err(ExifError::SizeMismatch)
    ));
    assert!(matches!(
        Entry::new(274, DataType::URational, 1, vec![0, 1]),
        Err(ExifError::SizeMismatch)
    ));
}

#[test]
fn entry_value_decodes() {
    let entry = Entry::new(274, DataType::U16, 1, vec![0, 1]).unwrap();
    match entry.value(ByteOrder::BigEndian) {
        Ok(Value::U16(v)) => assert_eq!(v, vec![1]),
        other => panic!("unexpected result: {:?}", other),
    }
    match entry.value(ByteOrder::LittleEndian) {
        Ok(Value::U16(v)) => assert_eq!(v, vec![256]),
        other => panic!("unexpected result: {:?}", other),
    }
}

#[test]
fn text_value_numeric() {
    let entry = Entry::new(1, DataType::U8, 3, vec![1, 2, 3]).unwrap();
    assert_eq!(entry.text_value(ByteOrder::BigEndian).unwrap(), "1, 2, 3");
}

#[test]
fn text_value_signed() {
    let encoded = Value::I16(vec![-5, 10]).encode(ByteOrder::BigEndian);
    let entry = Entry::new(1, DataType::I16, 2, encoded).unwrap();
    assert_eq!(entry.text_value(ByteOrder::BigEndian).unwrap(), "-5, 10");
}

#[test]
fn text_value_extremes() {
    let encoded = Value::I32(vec![i32::MIN, i32::MAX]).encode(ByteOrder::LittleEndian);
    let entry = Entry::new(1, DataType::I32, 2, encoded).unwrap();
    assert_eq!(
        entry.text_value(ByteOrder::LittleEndian).unwrap(),
        "-2147483648, 2147483647"
    );
    let encoded = Value::U32(vec![u32::MAX, 0]).encode(ByteOrder::BigEndian);
    let entry = Entry::new(1, DataType::U32, 2, encoded).unwrap();
    assert_eq!(entry.text_value(ByteOrder::BigEndian).unwrap(), "4294967295, 0");
}

#[test]
fn text_value_rational() {
    let encoded = Value::URational(vec![Rational(42, 100)]).encode(ByteOrder::BigEndian);
    let entry = Entry::new(1, DataType::URational, 1, encoded).unwrap();
    assert_eq!(entry.text_value(ByteOrder::BigEndian).unwrap(), "42/100");
    let encoded = Value::IRational(vec![Rational(-1, 2)]).encode(ByteOrder::BigEndian);
    let entry = Entry::new(1, DataType::IRational, 1, encoded).unwrap();
    assert_eq!(entry.text_value(ByteOrder::BigEndian).unwrap(), "-1/2");
}

#[test]
fn text_value_text() {
    let entry = Entry::new(1, DataType::Text, 6, b"hello\0".to_vec()).unwrap();
    assert_eq!(entry.text_value(ByteOrder::BigEndian).unwrap(), "hello");
}

#[test]
fn text_value_empty_elements() {
    let entry = Entry::new(1, DataType::U16, 0, vec![]).unwrap();
    assert_eq!(entry.text_value(ByteOrder::BigEndian).unwrap(), "");
}

#[test]
fn fix_adds_missing_terminator() {
    let mut entry = Entry::new(1, DataType::Text, 2, b"AB".to_vec()).unwrap();
    entry.fix();
    assert_eq!(entry.raw_data(), b"AB\0");
    assert_eq!(entry.components(), 3);
}

#[test]
fn fix_keeps_terminated_text() {
    let mut entry = Entry::new(1, DataType::Text, 3, b"AB\0".to_vec()).unwrap();
    entry.fix();
    assert_eq!(entry.raw_data(), b"AB\0");
    assert_eq!(entry.components(), 3);
}

#[test]
fn fix_leaves_numeric_entries_alone() {
    let mut entry = Entry::new(1, DataType::U16, 1, vec![9, 9]).unwrap();
    entry.fix();
    assert_eq!(entry.raw_data(), &[9, 9]);
    assert_eq!(entry.components(), 1);
}
