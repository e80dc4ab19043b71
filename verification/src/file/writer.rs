//! Writing options and the checks made on data before it is written.

use vstd::prelude::*;

use crate::array::{ArrayType, DataType};
use crate::error::Error;
use crate::zip_container::FileType;

verus! {

/// Compression level to use. Applies to Parquet and JSON data in the OMF file.
#[derive(Debug, Clone, Copy)]
pub struct Compression(u32);

/// The lowest compression level.
pub const MINIMUM_COMPRESSION: u32 = 0;

/// The highest compression level.
pub const MAXIMUM_COMPRESSION: u32 = 9;

impl Compression {
    /// Every compression level lies in `0..=9`.
    #[verifier::type_invariant]
    spec fn in_range(&self) -> bool {
        MINIMUM_COMPRESSION <= self.0 <= MAXIMUM_COMPRESSION
    }

    /// The compression level.
    pub closed spec fn spec_level(&self) -> u32 {
        self.0
    }

    /// Create a compression level, clamped to the range `0..=9`.
    pub fn new(level: u32) -> (r: Self)
        ensures
            r.spec_level() == if level > MAXIMUM_COMPRESSION {
                MAXIMUM_COMPRESSION
            } else {
                level
            },
    {
        if level > MAXIMUM_COMPRESSION {
            Compression(MAXIMUM_COMPRESSION)
        } else if level < MINIMUM_COMPRESSION {
            Compression(MINIMUM_COMPRESSION)
        } else {
            Compression(level)
        }
    }

    /// No compression.
    pub fn none() -> (r: Self)
        ensures
            r.spec_level() == 0,
    {
        Compression(0)
    }

    /// Compress as fast as possible at the cost of file size.
    pub fn fast() -> (r: Self)
        ensures
            r.spec_level() == 1,
    {
        Compression(1)
    }

    /// Take as long as necessary to compress as small as possible.
    pub fn best() -> (r: Self)
        ensures
            r.spec_level() == 9,
    {
        Compression(9)
    }

    /// Returns the compression level, which always lies in `0..=9`.
    pub fn level(&self) -> (r: u32)
        ensures
            r == self.spec_level(),
            MINIMUM_COMPRESSION <= r <= MAXIMUM_COMPRESSION,
    {
        proof {
            use_type_invariant(self);
        }
        self.0
    }
}

impl Default for Compression {
    /// The default compression level, a balance between speed and file size.
    fn default() -> (r: Self)
        ensures
            r.spec_level() == 6,
    {
        Compression(6)
    }
}

/// The bytes that start a PNG file.
pub open spec fn png_magic() -> Seq<u8> {
    seq![0x89u8, 0x50, 0x4E, 0x47, 0x0D, 0x0A, 0x1A, 0x0A]
}

/// The bytes that start a JPEG file.
pub open spec fn jpeg_magic() -> Seq<u8> {
    seq![0xFFu8, 0xD8, 0xFF]
}

/// The bytes that start and end a Parquet file.
pub open spec fn parquet_magic() -> Seq<u8> {
    seq![0x50u8, 0x41, 0x52, 0x31]
}

/// True if `bytes` starts with `prefix`.
pub open spec fn starts_with(bytes: Seq<u8>, prefix: Seq<u8>) -> bool {
    bytes.len() >= prefix.len() && bytes.take(prefix.len() as int) == prefix
}

/// True if `bytes` ends with `suffix`.
pub open spec fn ends_with(bytes: Seq<u8>, suffix: Seq<u8>) -> bool {
    bytes.len() >= suffix.len() && bytes.skip(bytes.len() - suffix.len()) == suffix
}

fn has_prefix(bytes: &[u8], prefix: &[u8]) -> (r: bool)
    ensures
        r == starts_with(bytes@, prefix@),
{
    if bytes.len() < prefix.len() {
        return false;
    }
    let mut i: usize = 0;
    while i < prefix.len()
        invariant
            i <= prefix@.len() <= bytes@.len(),
            forall|j: int| 0 <= j < i ==> bytes@[j] == prefix@[j],
        decreases prefix@.len() - i,
    {
        if bytes[i] != prefix[i] {
            assert(bytes@.take(prefix@.len() as int)[i as int] != prefix@[i as int]);
            return false;
        }
        i += 1;
    }
    assert(bytes@.take(prefix@.len() as int) =~= prefix@);
    true
}

fn has_suffix(bytes: &[u8], suffix: &[u8]) -> (r: bool)
    ensures
        r == ends_with(bytes@, suffix@),
{
    if bytes.len() < suffix.len() {
        return false;
    }
    let off = bytes.len() - suffix.len();
    let mut i: usize = 0;
    while i < suffix.len()
        invariant
            i <= suffix@.len() <= bytes@.len(),
            off == bytes@.len() - suffix@.len(),
            bytes@.len() == bytes.len(),
            forall|j: int| 0 <= j < i ==> bytes@[off + j] == suffix@[j],
        decreases suffix@.len() - i,
    {
        if bytes[off + i] != suffix[i] {
            assert(bytes@.skip(off as int)[i as int] != suffix@[i as int]);
            return false;
        }
        i += 1;
    }
    assert(bytes@.skip(off as int) =~= suffix@);
    true
}

/// Checks that the bytes of an array are encoded as its type needs: images as PNG or JPEG,
/// everything else as Parquet (which starts and ends with `PAR1`). Returns the kind of archive
/// member to store them in.
pub fn check_header<A: ArrayType>(bytes: &[u8]) -> (r: Result<FileType, Error>)
    ensures
        A::spec_data_type() == DataType::Image ==> if starts_with(bytes@, png_magic()) {
            r == Ok::<FileType, Error>(FileType::Png)
        } else if starts_with(bytes@, jpeg_magic()) {
            r == Ok::<FileType, Error>(FileType::Jpeg)
        } else {
            r matches Err(Error::NotImageData)
        },
        A::spec_data_type() != DataType::Image ==> if starts_with(bytes@, parquet_magic())
            && ends_with(bytes@, parquet_magic()) {
            r == Ok::<FileType, Error>(FileType::Parquet)
        } else {
            r matches Err(Error::NotParquetData)
        },
{
    let png: [u8; 8] = [0x89, 0x50, 0x4E, 0x47, 0x0D, 0x0A, 0x1A, 0x0A];
    let jpeg: [u8; 3] = [0xFF, 0xD8, 0xFF];
    let parquet: [u8; 4] = [0x50, 0x41, 0x52, 0x31];
    assert(png@ =~= png_magic());
    assert(jpeg@ =~= jpeg_magic());
    assert(parquet@ =~= parquet_magic());
    match A::data_type() {
        DataType::Image => {
            if has_prefix(bytes, &png) {
                Ok(FileType::Png)
            } else if has_prefix(bytes, &jpeg) {
                Ok(FileType::Jpeg)
            } else {
                Err(Error::NotImageData)
            }
        },
        _ => {
            if !has_prefix(bytes, &parquet) || !has_suffix(bytes, &parquet) {
                Err(Error::NotParquetData)
            } else {
                Ok(FileType::Parquet)
            }
        },
    }
}

} // verus!
