//! Error types for the checks and decoding rules in this crate.
//!
//! Floating-point values that appear in errors are carried as their IEEE 754 bit patterns
//! (`f64::to_bits`), so that the error can be reported exactly without this crate doing any
//! floating-point arithmetic.

use vstd::prelude::*;

use crate::block_model::SubblockMode;
use crate::omf1::error::Omf1Error;
use crate::pq_schema::SchemaType;
use crate::problem::Problems;

verus! {

/// Ways that the data inside an array can be invalid.
#[derive(Debug, Clone, Copy, PartialEq, Eq)]
#[allow(inconsistent_fields)]
pub enum InvalidData {
    /// A size that must be positive is zero or less. Carries the value's bit pattern.
    SizeZeroOrLess { value_bits: u64 },
    /// An index is out of range.
    IndexOutOfRange { value: u64, maximum: u64 },
    /// A parent block index is out of range.
    BlockIndexOutOfRange { value: [u32; 3], maximum: [u32; 3] },
    /// A regular sub-block extends outside its parent block.
    RegularSubblockOutsideParent { corners: [u32; 6], maximum: [u32; 3] },
    /// A regular sub-block has zero or negative size on some axis.
    RegularSubblockZeroSize { corners: [u32; 6] },
    /// A regular sub-block does not fit the sub-block mode.
    RegularSubblockNotInMode { corners: [u32; 6], mode: SubblockMode },
    /// A free-form sub-block has zero or negative size. Carries the corners' bit patterns.
    FreeformSubblockZeroSize { corner_bits: [u64; 6] },
    /// A free-form sub-block extends outside its parent. Carries the corners' bit patterns.
    FreeformSubblockOutsideParent { corner_bits: [u64; 6] },
    /// Discrete colormap boundaries are not increasing.
    BoundaryDecreases,
}

/// The limits that reading can run into.
#[derive(Debug, Clone, Copy, PartialEq, Eq, Structural)]
pub enum Limit {
    /// The uncompressed size of the JSON index.
    JsonBytes,
    /// The uncompressed size of an image.
    ImageBytes,
    /// The width or height of an image.
    ImageDim,
}


/// Errors generated by this crate.
#[derive(Debug)]
pub enum Error {
    /// Used when an I/O error occurs while reading or writing a file.
    IoError(std::io::Error),
    /// A validation failure, carrying the errors and warnings that were found.
    ValidationFailed(Problems),
    /// The JSON index could not be read; carries the JSON error's message.
    DeserializationFailed(String),
    /// The JSON index could not be written; carries the JSON error's message.
    SerializationFailed(String),
    /// Errors from reading or writing Parquet array data; carries the error's message.
    ParquetError(String),
    /// Parquet data does not match any schema the array type allows: the schema found and
    /// the schemas allowed.
    ParquetSchemaMismatch(SchemaType, Vec<SchemaType>),
    /// Errors from encoding or decoding images; carries the error's message.
    ImageError(String),
    /// Errors from converting OMF v1 files.
    Omf1(Omf1Error),
    /// The data inside an array is invalid.
    InvalidData(InvalidData),
    /// A reading limit was exceeded.
    LimitExceeded(Limit),
    /// The file uses a pre-release version of the format that this crate can't read:
    /// major version, minor version, and the pre-release suffix.
    PreReleaseVersion(u32, u32, String),
    /// The file uses a newer version of the format than this crate can read.
    NewerVersion(u32, u32),
    /// The file is not an OMF file; carries the archive comment that was found.
    NotOmf(String),
    /// An archive member is missing.
    ZipMemberMissing(String),
    /// The archive is not laid out as OMF requires.
    ZipError(String),
    /// Image data is not PNG or JPEG.
    NotImageData,
    /// Array data is not Parquet.
    NotParquetData,
    /// A value can't be converted without loss: from type, to type.
    UnsafeCast(&'static str, &'static str),
}

} // verus!

verus! {

impl From<std::io::Error> for Error {
    /// Wraps an I/O error.
    fn from(e: std::io::Error) -> (r: Self) {
        Error::IoError(e)
    }
}

impl vstd::std_specs::convert::FromSpecImpl<std::io::Error> for Error {
    open spec fn obeys_from_spec() -> bool {
        true
    }

    open spec fn from_spec(e: std::io::Error) -> Self {
        Error::IoError(e)
    }
}

impl From<Omf1Error> for Error {
    /// Wraps an OMF v1 error.
    fn from(e: Omf1Error) -> (r: Self) {
        Error::Omf1(e)
    }
}

impl vstd::std_specs::convert::FromSpecImpl<Omf1Error> for Error {
    open spec fn obeys_from_spec() -> bool {
        true
    }

    open spec fn from_spec(e: Omf1Error) -> Self {
        Error::Omf1(e)
    }
}

impl From<InvalidData> for Error {
    /// Wraps an invalid data error.
    fn from(e: InvalidData) -> (r: Self) {
        Error::InvalidData(e)
    }
}

impl vstd::std_specs::convert::FromSpecImpl<InvalidData> for Error {
    open spec fn obeys_from_spec() -> bool {
        true
    }

    open spec fn from_spec(e: InvalidData) -> Self {
        Error::InvalidData(e)
    }
}

} // verus!
