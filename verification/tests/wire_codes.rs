//! Conversions between the model enumerations and their wire codes.
use exif::{ByteOrder, DataEncoding, DataOption, DataType, ExifError, IFD, SupportLevel};

#[test]
fn byte_order_codes() {
    assert_eq!(ByteOrder::from_code(0x4D4D), Ok(ByteOrder::BigEndian));
    assert_eq!(ByteOrder::from_code(0x4949), Ok(ByteOrder::LittleEndian));
    assert_eq!(ByteOrder::BigEndian.code(), 0x4D4D);
    assert_eq!(ByteOrder::LittleEndian.code(), 0x4949);
    assert_eq!(ByteOrder::from_code(0x1234), Err(ExifError::IllegalByteOrder));
    assert_eq!(ByteOrder::from_code(0x494D), Err(ExifError::IllegalByteOrder));
}

#[test]
fn data_type_codes() {
    let cases = [
        (1u16, DataType::U8),
        (2, DataType::Text),
        (3, DataType::U16),
        (4, DataType::U32),
        (5, DataType::URational),
        (6, DataType::I8),
        (7, DataType::Undefined),
        (8, DataType::I16),
        (9, DataType::I32),
        (10, DataType::IRational),
    ];
    for (code, data_type) in cases {
        assert_eq!(DataType::from_code(code), Ok(data_type));
        assert_eq!(data_type.code(), code);
    }
    assert_eq!(DataType::from_code(0), Err(ExifError::IllegalDataType));
    assert_eq!(DataType::from_code(11), Err(ExifError::IllegalDataType));
    assert_eq!(DataType::from_code(0xFFFF), Err(ExifError::IllegalDataType));
}

#[test]
fn data_type_sizes() {
    assert_eq!(DataType::Text.size(), 1);
    assert_eq!(DataType::U8.size(), 1);
    assert_eq!(DataType::I8.size(), 1);
    assert_eq!(DataType::U16.size(), 2);
    assert_eq!(DataType::I16.size(), 2);
    assert_eq!(DataType::U32.size(), 4);
    assert_eq!(DataType::I32.size(), 4);
    assert_eq!(DataType::URational.size(), 8);
    assert_eq!(DataType::IRational.size(), 8);
    assert_eq!(DataType::Undefined.size(), 1);
}

#[test]
fn ifd_codes() {
    let cases = [
        (0u32, IFD::Image),
        (1, IFD::Thumbnail),
        (2, IFD::EXIF),
        (3, IFD::GPS),
        (4, IFD::Interoperability),
    ];
    for (code, ifd) in cases {
        assert_eq!(IFD::from_code(code), Ok(ifd));
        assert_eq!(ifd.code(), code);
    }
    assert_eq!(IFD::from_code(5), Err(ExifError::UnknownIFD));
}

#[test]
fn data_encoding_codes() {
    let cases = [
        (0u32, DataEncoding::Chunky),
        (1, DataEncoding::Planar),
        (2, DataEncoding::Ycc),
        (3, DataEncoding::Compressed),
        (4, DataEncoding::Unknown),
    ];
    for (code, encoding) in cases {
        assert_eq!(DataEncoding::from_code(code), Ok(encoding));
        assert_eq!(encoding.code(), code);
    }
    assert_eq!(DataEncoding::from_code(5), Err(ExifError::IllegalDataType));
}

#[test]
fn data_option_codes() {
    let cases = [
        (1u32, DataOption::IgnoreUnknownTags),
        (2, DataOption::FollowSpecification),
        (4, DataOption::DontChangeMakerNote),
    ];
    for (code, option) in cases {
        assert_eq!(DataOption::from_code(code), Ok(option));
        assert_eq!(option.code(), code);
    }
    assert_eq!(DataOption::from_code(0), Err(ExifError::IllegalDataOption));
    assert_eq!(DataOption::from_code(3), Err(ExifError::IllegalDataOption));
    assert_eq!(DataOption::from_code(8), Err(ExifError::IllegalDataOption));
}

#[test]
fn support_level_codes() {
    let cases = [
        (0u32, SupportLevel::Unknown),
        (1, SupportLevel::NotAllowed),
        (2, SupportLevel::Required),
        (3, SupportLevel::Optional),
    ];
    for (code, level) in cases {
        assert_eq!(SupportLevel::from_code(code), Ok(level));
        assert_eq!(level.code(), code);
    }
    assert_eq!(SupportLevel::from_code(4), Err(ExifError::IllegalSupportLevel));
}
