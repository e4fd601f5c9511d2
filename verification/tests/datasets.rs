//! Directories and datasets: accessors, options, the empty directory,
//! and the specification repair.
use exif::{
    ByteOrder, Content, Data, DataEncoding, DataOption, DataType, Entry, ExifError, IFD, Value,
};

#[test]
fn empty_directory() {
    let content = Content::new(1, Vec::new());
    assert_eq!(content.len(), 0);
    assert_eq!(content.entries().len(), 0);
    assert!(content.entries().is_empty());
    assert_eq!(content.ifd(), Ok(IFD::Thumbnail));
}

#[test]
fn unknown_directory_code() {
    let content = Content::new(9, Vec::new());
    assert_eq!(content.ifd(), Err(ExifError::UnknownIFD));
}

#[test]
fn dataset_accessors() {
    let mut data = Data::new(ByteOrder::BigEndian, DataEncoding::Compressed, Vec::new());
    assert_eq!(data.byte_order(), ByteOrder::BigEndian);
    assert_eq!(data.encoding(), DataEncoding::Compressed);
    assert_eq!(data.contents().len(), 0);
    data.set_byte_order(ByteOrder::LittleEndian);
    assert_eq!(data.byte_order(), ByteOrder::LittleEndian);
    data.set_encoding(DataEncoding::Chunky);
    assert_eq!(data.encoding(), DataEncoding::Chunky);
}

#[test]
fn dataset_options() {
    let mut data = Data::new(ByteOrder::BigEndian, DataEncoding::Unknown, Vec::new());
    assert!(!data.has_option(DataOption::FollowSpecification));
    data.set_option(DataOption::FollowSpecification);
    assert!(data.has_option(DataOption::FollowSpecification));
    assert!(!data.has_option(DataOption::IgnoreUnknownTags));
    data.set_option(DataOption::IgnoreUnknownTags);
    data.unset_option(DataOption::FollowSpecification);
    assert!(!data.has_option(DataOption::FollowSpecification));
    assert!(data.has_option(DataOption::IgnoreUnknownTags));
    assert!(!data.has_option(DataOption::DontChangeMakerNote));
}

#[test]
fn dataset_fix_repairs_text() {
    let text_entry = Entry::new(0x010E, DataType::Text, 2, b"hi".to_vec()).unwrap();
    let numeric_entry = Entry::new(274, DataType::U16, 1, vec![0, 1]).unwrap();
    let content = Content::new(0, vec![text_entry, numeric_entry]);
    let mut data = Data::new(ByteOrder::BigEndian, DataEncoding::Unknown, vec![content]);
    data.fix();
    let contents = data.contents();
    assert_eq!(contents.len(), 1);
    let entries = contents[0].entries();
    assert_eq!(entries.len(), 2);
    assert_eq!(entries[0].raw_data(), b"hi\0");
    assert_eq!(entries[0].components(), 3);
    assert_eq!(entries[1].raw_data(), &[0, 1]);
    assert_eq!(entries[1].components(), 1);
    assert_eq!(data.byte_order(), ByteOrder::BigEndian);
    match entries[0].value(ByteOrder::BigEndian) {
        Ok(Value::Text(s)) => assert_eq!(s, "hi"),
        other => panic!("unexpected result: {:?}", other),
    }
}

#[test]
fn directory_order_is_kept() {
    let first = Entry::new(3, DataType::U8, 1, vec![1]).unwrap();
    let second = Entry::new(1, DataType::U8, 1, vec![2]).unwrap();
    let content = Content::new(0, vec![first, second]);
    let entries = content.entries();
    assert_eq!(entries[0].tag().code(), 3);
    assert_eq!(entries[1].tag().code(), 1);
}
