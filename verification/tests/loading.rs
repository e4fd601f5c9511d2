//! The incremental loader: container detection, completion, terminal
//! states, and end-to-end decoding of minimal streams.
use exif::{ByteOrder, Data, ExifError, Loader, LoaderState, Value};

fn minimal_tiff_be() -> Vec<u8> {
    vec![
        0x4D, 0x4D, 0x00, 0x2A, 0x00, 0x00, 0x00, 0x08, // big-endian header, directory at 8
        0x00, 0x01, // one record
        0x01, 0x12, 0x00, 0x03, 0x00, 0x00, 0x00, 0x01, 0x00, 0x01, 0x00,
        0x00, // orientation (274), one 16-bit word, value 1
        0x00, 0x00, 0x00, 0x00, // no next directory
    ]
}

fn minimal_tiff_le() -> Vec<u8> {
    vec![
        0x49, 0x49, 0x2A, 0x00, 0x08, 0x00, 0x00, 0x00, // little-endian header
        0x01, 0x00, // one record
        0x12, 0x01, 0x03, 0x00, 0x01, 0x00, 0x00, 0x00, 0x01, 0x00, 0x00, 0x00,
        0x00, 0x00, 0x00, 0x00, // no next directory
    ]
}

fn jpeg_wrap(tiff: &[u8]) -> Vec<u8> {
    let mut out = vec![0xFF, 0xD8, 0xFF, 0xE1];
    let seglen = (tiff.len() + 8) as u16;
    out.push((seglen >> 8) as u8);
    out.push((seglen & 0xFF) as u8);
    out.extend_from_slice(b"Exif\0\0");
    out.extend_from_slice(tiff);
    out.push(0xFF);
    out.push(0xD9);
    out
}

fn orientation_value(data: &Data) -> Option<u16> {
    let order = data.byte_order();
    for content in data.contents() {
        for entry in content.entries() {
            if entry.tag().code() == 274 {
                match entry.value(order) {
                    Ok(Value::U16(v)) => return Some(v[0]),
                    other => panic!("unexpected orientation value: {:?}", other),
                }
            }
        }
    }
    None
}

#[test]
fn end_to_end_minimal_stream() {
    let mut loader = Loader::new();
    assert!(loader.write_data(&minimal_tiff_be()));
    let data = loader.finish().unwrap();
    assert_eq!(data.byte_order(), ByteOrder::BigEndian);
    assert_eq!(data.contents().len(), 5);
    assert_eq!(orientation_value(&data), Some(1));
}

#[test]
fn end_to_end_little_endian() {
    let mut loader = Loader::new();
    assert!(loader.write_data(&minimal_tiff_le()));
    let data = loader.finish().unwrap();
    assert_eq!(data.byte_order(), ByteOrder::LittleEndian);
    assert_eq!(orientation_value(&data), Some(1));
}

#[test]
fn end_to_end_jpeg() {
    let mut loader = Loader::new();
    let more = loader.write_data(&jpeg_wrap(&minimal_tiff_be()));
    assert!(!more);
    assert_eq!(loader.state(), LoaderState::Ready);
    let data = loader.finish().unwrap();
    assert_eq!(data.byte_order(), ByteOrder::BigEndian);
    assert_eq!(orientation_value(&data), Some(1));
}

#[test]
fn end_to_end_exif_prefix() {
    let mut stream = b"Exif\0\0".to_vec();
    stream.extend_from_slice(&minimal_tiff_be());
    let mut loader = Loader::new();
    assert!(loader.write_data(&stream));
    let data = loader.finish().unwrap();
    assert_eq!(orientation_value(&data), Some(1));
}

#[test]
fn chunked_feeding() {
    let stream = jpeg_wrap(&minimal_tiff_be());
    let mut loader = Loader::new();
    assert!(loader.data().is_none());
    for byte in &stream {
        loader.write_data(&[*byte]);
    }
    assert_eq!(loader.state(), LoaderState::Ready);
    let data = loader.data().unwrap();
    assert_eq!(orientation_value(&data), Some(1));
}

#[test]
fn loader_idempotence() {
    let mut loader = Loader::new();
    loader.write_data(&jpeg_wrap(&minimal_tiff_be()));
    assert_eq!(loader.state(), LoaderState::Ready);
    let before = loader.finish().unwrap();
    assert!(!loader.write_data(&[0xDE, 0xAD, 0xBE, 0xEF]));
    assert!(!loader.write_data(b"more bytes that must be ignored"));
    assert_eq!(loader.state(), LoaderState::Ready);
    let after = loader.finish().unwrap();
    assert_eq!(before.byte_order(), after.byte_order());
    assert_eq!(before.contents().len(), after.contents().len());
    for (b, a) in before.contents().iter().zip(after.contents().iter()) {
        assert_eq!(b.len(), a.len());
        for (be, ae) in b.entries().iter().zip(a.entries().iter()) {
            assert_eq!(be.tag().code(), ae.tag().code());
            assert_eq!(be.raw_data(), ae.raw_data());
        }
    }
    assert_eq!(orientation_value(&after), Some(1));
}

#[test]
fn unrecognizable_stream_fails() {
    let mut loader = Loader::new();
    assert!(!loader.write_data(b"PNG is not a metadata container"));
    assert_eq!(loader.state(), LoaderState::Failed);
    assert!(matches!(loader.finish(), Err(ExifError::Corrupt)));
    assert!(loader.data().is_none());
    assert!(!loader.write_data(&minimal_tiff_be()));
    assert_eq!(loader.state(), LoaderState::Failed);
}

#[test]
fn jpeg_without_metadata_fails() {
    let mut loader = Loader::new();
    // start of scan comes before any metadata segment
    assert!(!loader.write_data(&[0xFF, 0xD8, 0xFF, 0xDA, 0x00, 0x04, 0x00, 0x00]));
    assert_eq!(loader.state(), LoaderState::Failed);
    assert!(matches!(loader.finish(), Err(ExifError::Corrupt)));
}

#[test]
fn empty_loader_is_truncated() {
    let loader = Loader::new();
    assert_eq!(loader.state(), LoaderState::Accumulating);
    assert!(matches!(loader.finish(), Err(ExifError::Truncated)));
    assert!(loader.data().is_none());
}

#[test]
fn partial_header_is_truncated() {
    let mut loader = Loader::new();
    assert!(loader.write_data(&[0x4D]));
    assert!(matches!(loader.finish(), Err(ExifError::Truncated)));
    assert!(loader.write_data(&[0x4D, 0x00]));
    assert!(matches!(loader.finish(), Err(ExifError::Truncated)));
}

#[test]
fn bad_magic_is_corrupt() {
    let mut stream = minimal_tiff_be();
    stream[3] = 0x2B;
    let mut loader = Loader::new();
    loader.write_data(&stream);
    assert!(matches!(loader.finish(), Err(ExifError::Corrupt)));
}

#[test]
fn unrecognized_byte_order_mark() {
    let mut stream = b"Exif\0\0".to_vec();
    stream.extend_from_slice(&[0x49, 0x4D, 0x00, 0x2A, 0x00, 0x00, 0x00, 0x08]);
    let mut loader = Loader::new();
    loader.write_data(&stream);
    assert!(matches!(loader.finish(), Err(ExifError::IllegalByteOrder)));
}

#[test]
fn entry_data_behind_offset() {
    // one rational entry whose eight data bytes sit past the record table
    let stream = vec![
        0x4D, 0x4D, 0x00, 0x2A, 0x00, 0x00, 0x00, 0x08, // header
        0x00, 0x01, // one record
        0x01, 0x1A, 0x00, 0x05, 0x00, 0x00, 0x00, 0x01, 0x00, 0x00, 0x00,
        0x1A, // x-resolution, one rational, data at 26
        0x00, 0x00, 0x00, 0x00, // no next directory
        0x00, 0x00, 0x00, 0x2A, 0x00, 0x00, 0x00, 0x64, // 42/100
    ];
    let mut loader = Loader::new();
    loader.write_data(&stream);
    let data = loader.finish().unwrap();
    let entries = data.contents()[0].entries();
    assert_eq!(entries.len(), 1);
    assert_eq!(entries[0].raw_data(), &[0, 0, 0, 42, 0, 0, 0, 100]);
    assert_eq!(entries[0].text_value(data.byte_order()).unwrap(), "42/100");
}

#[test]
fn entry_offset_out_of_range_is_corrupt() {
    let stream = vec![
        0x4D, 0x4D, 0x00, 0x2A, 0x00, 0x00, 0x00, 0x08, // header
        0x00, 0x01, // one record
        0x01, 0x1A, 0x00, 0x05, 0x00, 0x00, 0x00, 0x01, 0x00, 0x00, 0x27,
        0x0F, // data offset far past the end
        0x00, 0x00, 0x00, 0x00,
    ];
    let mut loader = Loader::new();
    loader.write_data(&stream);
    assert!(matches!(loader.finish(), Err(ExifError::Corrupt)));
}

#[test]
fn unknown_format_is_skipped() {
    let stream = vec![
        0x4D, 0x4D, 0x00, 0x2A, 0x00, 0x00, 0x00, 0x08, // header
        0x00, 0x02, // two records
        0x00, 0x01, 0x00, 0x1F, 0x00, 0x00, 0x00, 0x01, 0x00, 0x00, 0x00,
        0x00, // unrecognized format code: skipped
        0x01, 0x12, 0x00, 0x03, 0x00, 0x00, 0x00, 0x01, 0x00, 0x01, 0x00, 0x00, // orientation
        0x00, 0x00, 0x00, 0x00,
    ];
    let mut loader = Loader::new();
    loader.write_data(&stream);
    let data = loader.finish().unwrap();
    assert_eq!(data.contents()[0].len(), 1);
    assert_eq!(orientation_value(&data), Some(1));
}

#[test]
fn thumbnail_directory_chain() {
    let stream = vec![
        0x4D, 0x4D, 0x00, 0x2A, 0x00, 0x00, 0x00, 0x08, // header
        0x00, 0x01, // one record in the image directory
        0x01, 0x12, 0x00, 0x03, 0x00, 0x00, 0x00, 0x01, 0x00, 0x01, 0x00, 0x00, // orientation
        0x00, 0x00, 0x00, 0x1A, // next directory at 26
        0x00, 0x01, // one record in the thumbnail directory
        0x01, 0x03, 0x00, 0x03, 0x00, 0x00, 0x00, 0x01, 0x00, 0x06, 0x00,
        0x00, // compression, value 6
        0x00, 0x00, 0x00, 0x00,
    ];
    let mut loader = Loader::new();
    loader.write_data(&stream);
    let data = loader.finish().unwrap();
    let contents = data.contents();
    assert_eq!(contents[0].len(), 1);
    assert_eq!(contents[1].len(), 1);
    assert_eq!(contents[1].entries()[0].tag().code(), 0x0103);
    match contents[1].entries()[0].value(data.byte_order()) {
        Ok(Value::U16(v)) => assert_eq!(v, vec![6]),
        other => panic!("unexpected result: {:?}", other),
    }
}

#[test]
fn jpeg_with_leading_segments() {
    // a JFIF application segment precedes the metadata segment
    let mut stream = vec![0xFF, 0xD8, 0xFF, 0xE0, 0x00, 0x06, 0x4A, 0x46, 0x49, 0x46];
    let rest = jpeg_wrap(&minimal_tiff_be());
    stream.extend_from_slice(&rest[2..]);
    let mut loader = Loader::new();
    assert!(!loader.write_data(&stream));
    assert_eq!(loader.state(), LoaderState::Ready);
    let data = loader.finish().unwrap();
    assert_eq!(orientation_value(&data), Some(1));
}

#[test]
fn jpeg_partial_segment_wants_more() {
    let stream = jpeg_wrap(&minimal_tiff_be());
    let mut loader = Loader::new();
    // everything but the last six bytes: the declared segment is not complete yet
    assert!(loader.write_data(&stream[..stream.len() - 6]));
    assert_eq!(loader.state(), LoaderState::Accumulating);
    assert!(matches!(loader.finish(), Err(ExifError::Truncated)));
    assert!(!loader.write_data(&stream[stream.len() - 6..]));
    assert_eq!(loader.state(), LoaderState::Ready);
    let data = loader.finish().unwrap();
    assert_eq!(orientation_value(&data), Some(1));
}

#[test]
fn jpeg_foreign_application_segment_is_skipped() {
    // an application segment of the right marker but without the metadata
    // prelude is skipped like any other; the stream then ends without one
    let stream = vec![
        0xFF, 0xD8, 0xFF, 0xE1, 0x00, 0x0A, 0x58, 0x4D, 0x50, 0x00, 0x00, 0x00, 0x00, 0x00, 0xFF,
        0xD9,
    ];
    let mut loader = Loader::new();
    assert!(!loader.write_data(&stream));
    assert_eq!(loader.state(), LoaderState::Failed);
    assert!(matches!(loader.finish(), Err(ExifError::Corrupt)));
}

#[test]
fn camera_sub_directory() {
    let stream = vec![
        0x4D, 0x4D, 0x00, 0x2A, 0x00, 0x00, 0x00, 0x08, // header
        0x00, 0x01, // one record: the camera directory pointer
        0x87, 0x69, 0x00, 0x04, 0x00, 0x00, 0x00, 0x01, 0x00, 0x00, 0x00,
        0x1A, // pointer to the directory at 26
        0x00, 0x00, 0x00, 0x00, // no next directory
        0x00, 0x01, // one record in the camera directory
        0x90, 0x00, 0x00, 0x07, 0x00, 0x00, 0x00, 0x04, 0x30, 0x32, 0x33,
        0x30, // version, four undefined bytes
        0x00, 0x00, 0x00, 0x00,
    ];
    let mut loader = Loader::new();
    loader.write_data(&stream);
    let data = loader.finish().unwrap();
    let contents = data.contents();
    assert_eq!(contents.len(), 5);
    assert_eq!(contents[2].len(), 1);
    let entry = &contents[2].entries()[0];
    assert_eq!(entry.tag().code(), 0x9000);
    match entry.value(data.byte_order()) {
        Ok(Value::Undefined(v)) => assert_eq!(v, vec![0x30, 0x32, 0x33, 0x30]),
        other => panic!("unexpected result: {:?}", other),
    }
}
