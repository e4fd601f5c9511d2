//! The structural enumerations of the metadata model, with the total or
//! fallible conversions between each enumeration and its compact wire code.
use vstd::prelude::*;

use crate::ExifError;

verus! {

/// Byte order of multi-byte binary values.
#[derive(Debug, PartialEq, Eq, Clone, Copy, Hash, Structural)]
pub enum ByteOrder {
    /// Most significant bytes come first.
    ///
    /// An integer value of `0x1234ABCD` is laid out in memory as `12 34 AB CD`.
    BigEndian,
    /// Least significant bytes come first.
    ///
    /// An integer value of `0x1234ABCD` is laid out in memory as `CD AB 34 12`.
    LittleEndian,
}

/// The mapping from a byte-order mark, read as a big-endian 16-bit word,
/// to the byte order it declares: `MM` (0x4D4D) or `II` (0x4949).
pub open spec fn byte_order_of_code(code: u16) -> Result<ByteOrder, ExifError> {
    if code == 0x4D4D {
        Ok(ByteOrder::BigEndian)
    } else if code == 0x4949 {
        Ok(ByteOrder::LittleEndian)
    } else {
        Err(ExifError::IllegalByteOrder)
    }
}

impl ByteOrder {
    /// Resolve a byte-order mark; an unrecognized mark is a decode error.
    pub fn from_code(code: u16) -> (r: Result<ByteOrder, ExifError>)
        ensures
            r == byte_order_of_code(code),
    {
        if code == 0x4D4D {
            Ok(ByteOrder::BigEndian)
        } else if code == 0x4949 {
            Ok(ByteOrder::LittleEndian)
        } else {
            Err(ExifError::IllegalByteOrder)
        }
    }

    /// The byte-order mark that declares this byte order.
    pub fn code(self) -> (r: u16)
        ensures
            byte_order_of_code(r) == Ok::<ByteOrder, ExifError>(self),
    {
        match self {
            ByteOrder::BigEndian => 0x4D4D,
            ByteOrder::LittleEndian => 0x4949,
        }
    }
}

/// Encoding used to represent the image data that the metadata describes.
#[derive(Debug, PartialEq, Eq, Clone, Copy, Hash, Structural)]
pub enum DataEncoding {
    Chunky,
    Planar,
    Ycc,
    Compressed,
    Unknown,
}

/// The mapping from a compact encoding code to the encoding classifier.
pub open spec fn data_encoding_of_code(code: u32) -> Result<DataEncoding, ExifError> {
    if code == 0 {
        Ok(DataEncoding::Chunky)
    } else if code == 1 {
        Ok(DataEncoding::Planar)
    } else if code == 2 {
        Ok(DataEncoding::Ycc)
    } else if code == 3 {
        Ok(DataEncoding::Compressed)
    } else if code == 4 {
        Ok(DataEncoding::Unknown)
    } else {
        Err(ExifError::IllegalDataType)
    }
}

impl DataEncoding {
    /// Resolve an encoding code; an unrecognized code is a decode error.
    pub fn from_code(code: u32) -> (r: Result<DataEncoding, ExifError>)
        ensures
            r == data_encoding_of_code(code),
    {
        if code == 0 {
            Ok(DataEncoding::Chunky)
        } else if code == 1 {
            Ok(DataEncoding::Planar)
        } else if code == 2 {
            Ok(DataEncoding::Ycc)
        } else if code == 3 {
            Ok(DataEncoding::Compressed)
        } else if code == 4 {
            Ok(DataEncoding::Unknown)
        } else {
            Err(ExifError::IllegalDataType)
        }
    }

    /// The compact code of this encoding classifier.
    pub fn code(self) -> (r: u32)
        ensures
            data_encoding_of_code(r) == Ok::<DataEncoding, ExifError>(self),
    {
        match self {
            DataEncoding::Chunky => 0,
            DataEncoding::Planar => 1,
            DataEncoding::Ycc => 2,
            DataEncoding::Compressed => 3,
            DataEncoding::Unknown => 4,
        }
    }
}

/// Options that affect how a dataset is processed.
#[derive(Debug, PartialEq, Eq, Clone, Copy, Hash, Structural)]
pub enum DataOption {
    /// Act as though unknown tags don't exist.
    IgnoreUnknownTags,
    /// Automatically fix discrepancies in tags to follow the specification.
    FollowSpecification,
    /// Leave the maker note alone.
    DontChangeMakerNote,
}

/// The mapping from an option flag, one bit per option, to the option.
pub open spec fn data_option_of_code(code: u32) -> Result<DataOption, ExifError> {
    if code == 1 {
        Ok(DataOption::IgnoreUnknownTags)
    } else if code == 2 {
        Ok(DataOption::FollowSpecification)
    } else if code == 4 {
        Ok(DataOption::DontChangeMakerNote)
    } else {
        Err(ExifError::IllegalDataOption)
    }
}

impl DataOption {
    /// Resolve an option flag; an unrecognized flag is a decode error.
    pub fn from_code(code: u32) -> (r: Result<DataOption, ExifError>)
        ensures
            r == data_option_of_code(code),
    {
        if code == 1 {
            Ok(DataOption::IgnoreUnknownTags)
        } else if code == 2 {
            Ok(DataOption::FollowSpecification)
        } else if code == 4 {
            Ok(DataOption::DontChangeMakerNote)
        } else {
            Err(ExifError::IllegalDataOption)
        }
    }

    /// The flag bit of this option.
    pub fn code(self) -> (r: u32)
        ensures
            data_option_of_code(r) == Ok::<DataOption, ExifError>(self),
    {
        match self {
            DataOption::IgnoreUnknownTags => 1,
            DataOption::FollowSpecification => 2,
            DataOption::DontChangeMakerNote => 4,
        }
    }
}

/// Data formats of tag values, one variant per wire format code.
#[derive(Debug, PartialEq, Eq, Clone, Copy, Hash, Structural)]
pub enum DataType {
    /// Tag contains text.
    Text,
    /// Tag contains unsigned bytes.
    U8,
    /// Tag contains signed bytes.
    I8,
    /// Tag contains unsigned 16-bit integers.
    U16,
    /// Tag contains signed 16-bit integers.
    I16,
    /// Tag contains unsigned 32-bit integers.
    U32,
    /// Tag contains signed 32-bit integers.
    I32,
    /// Tag contains unsigned rational numbers.
    URational,
    /// Tag contains signed rational numbers.
    IRational,
    /// Tag contains data of undefined type.
    Undefined,
}

/// The mapping from a format wire code to the format. The codes are the
/// ones the metadata format itself defines: 1 for bytes, 2 for text,
/// 3 and 4 for unsigned 16- and 32-bit integers, 5 for unsigned rationals,
/// 6, 8, 9 and 10 for their signed counterparts, 7 for undefined data.
pub open spec fn data_type_of_code(code: u16) -> Result<DataType, ExifError> {
    if code == 1 {
        Ok(DataType::U8)
    } else if code == 2 {
        Ok(DataType::Text)
    } else if code == 3 {
        Ok(DataType::U16)
    } else if code == 4 {
        Ok(DataType::U32)
    } else if code == 5 {
        Ok(DataType::URational)
    } else if code == 6 {
        Ok(DataType::I8)
    } else if code == 7 {
        Ok(DataType::Undefined)
    } else if code == 8 {
        Ok(DataType::I16)
    } else if code == 9 {
        Ok(DataType::I32)
    } else if code == 10 {
        Ok(DataType::IRational)
    } else {
        Err(ExifError::IllegalDataType)
    }
}

/// Width in bytes of one element of the given format. A rational is two
/// 4-byte components; text, byte and undefined elements are single bytes.
pub open spec fn size_of_data_type(data_type: DataType) -> nat {
    match data_type {
        DataType::Text => 1,
        DataType::U8 => 1,
        DataType::I8 => 1,
        DataType::U16 => 2,
        DataType::I16 => 2,
        DataType::U32 => 4,
        DataType::I32 => 4,
        DataType::URational => 8,
        DataType::IRational => 8,
        DataType::Undefined => 1,
    }
}

impl DataType {
    /// Resolve a format wire code; an unrecognized code is a decode error.
    pub fn from_code(code: u16) -> (r: Result<DataType, ExifError>)
        ensures
            r == data_type_of_code(code),
    {
        if code == 1 {
            Ok(DataType::U8)
        } else if code == 2 {
            Ok(DataType::Text)
        } else if code == 3 {
            Ok(DataType::U16)
        } else if code == 4 {
            Ok(DataType::U32)
        } else if code == 5 {
            Ok(DataType::URational)
        } else if code == 6 {
            Ok(DataType::I8)
        } else if code == 7 {
            Ok(DataType::Undefined)
        } else if code == 8 {
            Ok(DataType::I16)
        } else if code == 9 {
            Ok(DataType::I32)
        } else if code == 10 {
            Ok(DataType::IRational)
        } else {
            Err(ExifError::IllegalDataType)
        }
    }

    /// The wire code of this format.
    pub fn code(self) -> (r: u16)
        ensures
            data_type_of_code(r) == Ok::<DataType, ExifError>(self),
    {
        match self {
            DataType::U8 => 1,
            DataType::Text => 2,
            DataType::U16 => 3,
            DataType::U32 => 4,
            DataType::URational => 5,
            DataType::I8 => 6,
            DataType::Undefined => 7,
            DataType::I16 => 8,
            DataType::I32 => 9,
            DataType::IRational => 10,
        }
    }

    /// Width in bytes of one element of this format.
    pub fn size(&self) -> (r: usize)
        ensures
            r == size_of_data_type(*self),
            1 <= r <= 8,
    {
        match self {
            DataType::Text => 1,
            DataType::U8 => 1,
            DataType::I8 => 1,
            DataType::U16 => 2,
            DataType::I16 => 2,
            DataType::U32 => 4,
            DataType::I32 => 4,
            DataType::URational => 8,
            DataType::IRational => 8,
            DataType::Undefined => 1,
        }
    }
}

/// Image file directory kinds.
///
/// An image file directory (IFD) is a group of related tag entries.
#[derive(Debug, PartialEq, Eq, Clone, Copy, Hash, Structural)]
pub enum IFD {
    /// Directory contents describe the primary image.
    Image,
    /// Directory contents describe the thumbnail image.
    Thumbnail,
    /// Directory contents hold camera-specific attributes.
    EXIF,
    /// Directory contents hold GPS data.
    GPS,
    /// Directory contents hold tags used for interoperability.
    Interoperability,
}

/// The mapping from a compact directory code to the directory kind.
pub open spec fn ifd_of_code(code: u32) -> Result<IFD, ExifError> {
    if code == 0 {
        Ok(IFD::Image)
    } else if code == 1 {
        Ok(IFD::Thumbnail)
    } else if code == 2 {
        Ok(IFD::EXIF)
    } else if code == 3 {
        Ok(IFD::GPS)
    } else if code == 4 {
        Ok(IFD::Interoperability)
    } else {
        Err(ExifError::UnknownIFD)
    }
}

impl IFD {
    /// Resolve a directory code; an unrecognized code is a decode error.
    pub fn from_code(code: u32) -> (r: Result<IFD, ExifError>)
        ensures
            r == ifd_of_code(code),
    {
        if code == 0 {
            Ok(IFD::Image)
        } else if code == 1 {
            Ok(IFD::Thumbnail)
        } else if code == 2 {
            Ok(IFD::EXIF)
        } else if code == 3 {
            Ok(IFD::GPS)
        } else if code == 4 {
            Ok(IFD::Interoperability)
        } else {
            Err(ExifError::UnknownIFD)
        }
    }

    /// The compact code of this directory kind.
    pub fn code(self) -> (r: u32)
        ensures
            ifd_of_code(r) == Ok::<IFD, ExifError>(self),
    {
        match self {
            IFD::Image => 0,
            IFD::Thumbnail => 1,
            IFD::EXIF => 2,
            IFD::GPS => 3,
            IFD::Interoperability => 4,
        }
    }
}

/// Requirement classification of a tag within a directory and encoding,
/// per the metadata specification.
#[derive(Debug, PartialEq, Eq, Clone, Copy, Hash, Structural)]
pub enum SupportLevel {
    /// The tag is mandatory for the given directory.
    Required,
    /// The tag is optional for the given directory.
    Optional,
    /// The tag is not allowed for the given directory.
    NotAllowed,
    /// The tag is not known.
    Unknown,
}

/// The mapping from a compact support-level code to the classification.
pub open spec fn support_level_of_code(code: u32) -> Result<SupportLevel, ExifError> {
    if code == 0 {
        Ok(SupportLevel::Unknown)
    } else if code == 1 {
        Ok(SupportLevel::NotAllowed)
    } else if code == 2 {
        Ok(SupportLevel::Required)
    } else if code == 3 {
        Ok(SupportLevel::Optional)
    } else {
        Err(ExifError::IllegalSupportLevel)
    }
}

impl SupportLevel {
    /// Resolve a support-level code; an unrecognized code is a decode error.
    pub fn from_code(code: u32) -> (r: Result<SupportLevel, ExifError>)
        ensures
            r == support_level_of_code(code),
    {
        if code == 0 {
            Ok(SupportLevel::Unknown)
        } else if code == 1 {
            Ok(SupportLevel::NotAllowed)
        } else if code == 2 {
            Ok(SupportLevel::Required)
        } else if code == 3 {
            Ok(SupportLevel::Optional)
        } else {
            Err(ExifError::IllegalSupportLevel)
        }
    }

    /// The compact code of this classification.
    pub fn code(self) -> (r: u32)
        ensures
            support_level_of_code(r) == Ok::<SupportLevel, ExifError>(self),
    {
        match self {
            SupportLevel::Unknown => 0,
            SupportLevel::NotAllowed => 1,
            SupportLevel::Required => 2,
            SupportLevel::Optional => 3,
        }
    }
}

} // verus!
