//! Recognising OMF v1 files and the settings used to convert them.

use vstd::prelude::*;

use crate::file::reader::Limits;
use crate::file::writer::Compression;

verus! {

/// The first bytes of an OMF v1 file.
pub open spec fn omf1_prefix() -> Seq<u8> {
    seq![0x84u8, 0x83, 0x82, 0x81, 79, 77, 70, 45]
}

/// Returns true if a file starting with these 8 bytes looks more like OMF1 than OMF2.
///
/// Does not guarantee that the file will load.
pub fn detect(prefix: [u8; 8]) -> (r: bool)
    ensures
        r == (prefix@ == omf1_prefix()),
{
    let expected: [u8; 8] = [0x84, 0x83, 0x82, 0x81, 79, 77, 70, 45];
    assert(expected@ =~= omf1_prefix());
    let mut i: usize = 0;
    while i < 8
        invariant
            i <= 8,
            expected@ == omf1_prefix(),
            forall|j: int| 0 <= j < i ==> prefix@[j] == expected@[j],
        decreases 8 - i,
    {
        if prefix[i] != expected[i] {
            return false;
        }
        i += 1;
    }
    assert(prefix@ =~= expected@);
    true
}

/// Converts a OMF1 files to OMF2.
///
/// This object allows you to set up the desired parameters then convert one or more files.
#[derive(Debug)]
pub struct Converter {
    limits: Limits,
    compression: Compression,
}

impl Converter {
    /// The limits used while converting.
    pub closed spec fn spec_limits(&self) -> Limits {
        self.limits
    }

    /// The compression used when writing.
    pub closed spec fn spec_compression(&self) -> Compression {
        self.compression
    }

    /// Creates a new default converter.
    pub fn new() -> (r: Self)
        ensures
            r.spec_limits().json_bytes == Some(crate::file::reader::DEFAULT_JSON_LIMIT),
            r.spec_limits().image_bytes == Some(
                crate::file::reader::spec_default_memory_limit(),
            ),
            r.spec_limits().image_dim is None,
            r.spec_limits().validation == Some(crate::file::reader::DEFAULT_VALIDATION_LIMIT),
            r.spec_compression().spec_level() == 6,
    {
        Converter { limits: Limits::default(), compression: Compression::default() }
    }

    /// Returns the current limits.
    pub fn limits(&self) -> (r: Limits)
        ensures
            r == self.spec_limits(),
    {
        self.limits
    }

    /// Set the limits to use during conversion.
    pub fn set_limits(&mut self, limits: Limits)
        ensures
            final(self).spec_limits() == limits,
            final(self).spec_compression() == old(self).spec_compression(),
    {
        self.limits = limits;
    }

    /// Returns the current compression level.
    pub fn compression(&self) -> (r: Compression)
        ensures
            r == self.spec_compression(),
    {
        self.compression
    }

    /// Set the compression level to use when writing.
    pub fn set_compression(&mut self, compression: Compression)
        ensures
            final(self).spec_compression() == compression,
            final(self).spec_limits() == old(self).spec_limits(),
    {
        self.compression = compression;
    }
}

impl Default for Converter {
    /// The default limits and compression.
    fn default() -> (r: Self)
        ensures
            r.spec_limits().json_bytes == Some(crate::file::reader::DEFAULT_JSON_LIMIT),
            r.spec_limits().image_bytes == Some(
                crate::file::reader::spec_default_memory_limit(),
            ),
            r.spec_limits().image_dim is None,
            r.spec_limits().validation == Some(crate::file::reader::DEFAULT_VALIDATION_LIMIT),
            r.spec_compression().spec_level() == 6,
    {
        Converter::new()
    }
}

} // verus!
