//! A verified decoder for EXIF metadata: an incremental loader that
//! assembles a complete metadata dataset from an append-only byte stream,
//! and a byte-order-aware value decoder that turns raw tag bytes into
//! strongly typed values.
use vstd::prelude::*;

pub mod bits;
pub mod codec;
pub mod content;
pub mod data;
pub mod entry;
pub mod loader;
pub mod parse;
pub mod render;
pub mod tag;
pub mod value;

pub use bits::ByteOrder;
pub use bits::DataEncoding;
pub use bits::DataOption;
pub use bits::DataType;
pub use bits::IFD;
pub use bits::SupportLevel;
pub use content::Content;
pub use data::Data;
pub use entry::Entry;
pub use loader::Loader;
pub use loader::LoaderState;
pub use tag::Tag;
pub use value::Rational;
pub use value::Value;

verus! {

/// Errors that may occur while reading EXIF data.
#[derive(Debug, Clone, Copy, PartialEq, Eq, Structural)]
pub enum ExifError {
    /// A byte-order mark has no known mapping.
    IllegalByteOrder,
    /// A data-format wire code has no known mapping.
    IllegalDataType,
    /// A data-option wire code has no known mapping.
    IllegalDataOption,
    /// A support-level wire code has no known mapping.
    IllegalSupportLevel,
    /// A directory wire code has no known mapping.
    UnknownIFD,
    /// A declared component count does not match the length of the raw data.
    SizeMismatch,
    /// Text bytes are not valid text.
    Encoding,
    /// The accumulated bytes end before a complete dataset was seen.
    Truncated,
    /// The accumulated bytes are structurally invalid.
    Corrupt,
}

} // verus!
