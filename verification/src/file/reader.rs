//! Reading limits and the checks made when an OMF file is opened.

use vstd::prelude::*;

use crate::error::{Error, Limit};
use crate::text::str_equal;
use crate::version::{
    format_version_prerelease, spec_prerelease, FORMAT_VERSION_MAJOR, FORMAT_VERSION_MINOR,
};

verus! {

/// The default maximum number of validation problems.
pub const DEFAULT_VALIDATION_LIMIT: u32 = 100;

/// The default maximum uncompressed size of the JSON index, 1 MiB.
pub const DEFAULT_JSON_LIMIT: u64 = 1048576;

/// The default maximum uncompressed image size: 1 GiB where pointers are 32 bits wide,
/// 16 GiB otherwise.
pub open spec fn spec_default_memory_limit() -> u64 {
    if usize::BITS == 32 {
        1073741824
    } else {
        17179869184
    }
}

/// Returns the default maximum uncompressed image size.
pub fn default_memory_limit() -> (r: u64)
    ensures
        r == spec_default_memory_limit(),
{
    if usize::BITS == 32 {
        1073741824
    } else {
        17179869184
    }
}

/// Memory limits for reading OMF files.
#[derive(Debug, Clone, Copy)]
pub struct Limits {
    /// Maximum uncompressed size for the JSON index.
    ///
    /// Default is 1 MB.
    pub json_bytes: Option<u64>,
    /// Maximum uncompressed image size.
    ///
    /// Default is 1 GB on 32-bit systems or 16 GB on 64-bit systems.
    pub image_bytes: Option<u64>,
    /// Maximum image width or height, default unlimited.
    pub image_dim: Option<u32>,
    /// Maximum number of validation errors.
    ///
    /// Errors beyond this limit will be discarded. Default is 100.
    pub validation: Option<u32>,
}

impl Limits {
    /// Creates an object with no limits set.
    ///
    /// Running without limits is not recommended.
    pub fn no_limits() -> (r: Self)
        ensures
            r.json_bytes is None,
            r.image_bytes is None,
            r.image_dim is None,
            r.validation is None,
    {
        Limits { json_bytes: None, image_bytes: None, image_dim: None, validation: None }
    }
}

impl Default for Limits {
    /// The default limits.
    fn default() -> (r: Self)
        ensures
            r.json_bytes == Some(DEFAULT_JSON_LIMIT),
            r.image_bytes == Some(spec_default_memory_limit()),
            r.image_dim is None,
            r.validation == Some(DEFAULT_VALIDATION_LIMIT),
    {
        Limits {
            json_bytes: Some(DEFAULT_JSON_LIMIT),
            image_bytes: Some(default_memory_limit()),
            image_dim: None,
            validation: Some(DEFAULT_VALIDATION_LIMIT),
        }
    }
}

/// True if version `a` is later than version `b`, comparing the major numbers first.
pub open spec fn version_newer(a: [u32; 2], b: [u32; 2]) -> bool {
    a[0] > b[0] || (a[0] == b[0] && a[1] > b[1])
}

/// Checks the format version of a file being opened.
///
/// A pre-release file can only be read by the matching pre-release of this crate, and a file
/// newer than the version this crate writes can't be read.
pub fn check_version(version: [u32; 2], pre_release: Option<&str>) -> (r: Result<(), Error>)
    ensures
        match pre_release {
            Some(pre) if pre@ != spec_prerelease() => r matches Err(
                Error::PreReleaseVersion(a, b, p),
            ) && a == version[0] && b == version[1] && p@ == pre@,
            _ => if version_newer(version, [FORMAT_VERSION_MAJOR, FORMAT_VERSION_MINOR]) {
                r matches Err(Error::NewerVersion(a, b)) && a == version[0] && b == version[1]
            } else {
                r is Ok
            },
        },
{
    if let Some(pre) = pre_release {
        let matches = match format_version_prerelease() {
            Some(expected) => str_equal(pre, expected),
            None => false,
        };
        if !matches {
            return Err(Error::PreReleaseVersion(version[0], version[1], String::from_str(pre)));
        }
    }
    if version[0] > FORMAT_VERSION_MAJOR || (version[0] == FORMAT_VERSION_MAJOR && version[1]
        > FORMAT_VERSION_MINOR) {
        return Err(Error::NewerVersion(version[0], version[1]));
    }
    Ok(())
}

/// Counts down the bytes that a reader may still produce, failing once more bytes than the
/// limit have been read.
pub struct LimitedRead {
    limit: u64,
}

impl LimitedRead {
    /// The bytes that may still be read.
    pub closed spec fn spec_limit(&self) -> u64 {
        self.limit
    }

    /// Starts counting down from `limit`.
    pub fn new(limit: u64) -> (r: Self)
        ensures
            r.spec_limit() == limit,
    {
        LimitedRead { limit }
    }

    /// Records that a read produced `n` bytes. If they fit in what is left, the limit goes
    /// down by `n` and the read succeeds, so reading exactly as many bytes as the limit allows
    /// succeeds. Otherwise the limit is exceeded: nothing is left and the read fails with
    /// `LimitExceeded(JsonBytes)`.
    pub fn after_read(&mut self, n: usize) -> (r: Result<usize, Error>)
        ensures
            n <= old(self).spec_limit() ==> r == Ok::<usize, Error>(n)
                && final(self).spec_limit() == old(self).spec_limit() - n,
            old(self).spec_limit() < n ==> (r matches Err(Error::LimitExceeded(Limit::JsonBytes))
                && final(self).spec_limit() == 0),
    {
        if n as u64 > self.limit {
            self.limit = 0;
            Err(Error::LimitExceeded(Limit::JsonBytes))
        } else {
            self.limit = self.limit - n as u64;
            Ok(n)
        }
    }
}

/// Whether reads of the sizes in `ns`, one [`LimitedRead::after_read`] step each, all stayed
/// within `limit`, and the bytes left after them (none once a read went over).
pub open spec fn limit_after(limit: u64, ns: Seq<usize>) -> (bool, u64)
    decreases ns.len(),
{
    if ns.len() == 0 {
        (true, limit)
    } else {
        let (ok, before) = limit_after(limit, ns.drop_last());
        if ns.last() <= before {
            (ok, (before - ns.last()) as u64)
        } else {
            (false, 0)
        }
    }
}

/// The total of the sizes.
pub open spec fn total(ns: Seq<usize>) -> int
    decreases ns.len(),
{
    if ns.len() == 0 {
        0
    } else {
        total(ns.drop_last()) + ns.last()
    }
}

/// A limited read fails exactly when more bytes than the limit are read: after reads of the
/// sizes in `ns`, every read succeeded if and only if their total is at most the limit, and
/// then the bytes left are the limit less the total.
pub proof fn lemma_limit_after(limit: u64, ns: Seq<usize>)
    ensures
        total(ns) >= 0,
        limit_after(limit, ns).0 <==> total(ns) <= limit,
        total(ns) <= limit ==> limit_after(limit, ns).1 == limit - total(ns),
    decreases ns.len(),
{
    if ns.len() > 0 {
        lemma_limit_after(limit, ns.drop_last());
    }
}

} // verus!
