//! Names and version numbers of the library and the file format it writes.

use vstd::prelude::*;

use crate::text::{decimal, push_decimal};

verus! {

/// Library name.
pub const CRATE_NAME: &'static str = "omf";

/// Library version.
pub const CRATE_VERSION: &'static str = "0.1.0-beta.1";

/// File format name.
pub const FORMAT_NAME: &'static str = "Open Mining Format";

/// File format extension.
pub const FORMAT_EXTENSION: &'static str = "omf";

/// File format major version number.
pub const FORMAT_VERSION_MAJOR: u32 = 2;

/// File format minor version number.
pub const FORMAT_VERSION_MINOR: u32 = 0;

/// File format pre-release version suffix, `alpha.2` in this version of the crate.
///
/// Release versions of the crate have no suffix. Pre-release formats may contain
/// experimental changes so can't be opened by release versions.
pub fn format_version_prerelease() -> (r: Option<&'static str>)
    ensures
        r matches Some(s) && s@ == spec_prerelease(),
{
    proof { reveal_strlit("alpha.2"); }
    Some("alpha.2")
}

/// The pre-release suffix of the format version.
pub open spec fn spec_prerelease() -> Seq<char> {
    seq!['a', 'l', 'p', 'h', 'a', '.', '2']
}

/// The format version text: `MAJOR.MINOR`, followed by `-PRERELEASE` when there is one.
pub open spec fn spec_format_version() -> Seq<char> {
    decimal(FORMAT_VERSION_MAJOR as nat) + seq!['.'] + decimal(FORMAT_VERSION_MINOR as nat)
        + seq!['-'] + spec_prerelease()
}

/// The format name followed by a space and the format version.
pub open spec fn spec_format_full_name() -> Seq<char> {
    FORMAT_NAME@ + seq![' '] + spec_format_version()
}

/// Returns a string containing the file format version that this crate produces.
pub fn format_version() -> (v: String)
    ensures
        v@ == spec_format_version(),
        v@ == seq!['2', '.', '0', '-', 'a', 'l', 'p', 'h', 'a', '.', '2'],
{
    let mut v = String::new();
    push_decimal(&mut v, FORMAT_VERSION_MAJOR as u64);
    proof { reveal_strlit("."); reveal_strlit("-"); }
    v.append(".");
    push_decimal(&mut v, FORMAT_VERSION_MINOR as u64);
    if let Some(pre) = format_version_prerelease() {
        v.append("-");
        v.append(pre);
    }
    assert(v@ =~= spec_format_version());
    v
}

/// Returns a string containing the full name and version of the file format that this
/// crate produces.
pub fn format_full_name() -> (v: String)
    ensures
        v@ == spec_format_full_name(),
{
    let mut v = String::from_str(FORMAT_NAME);
    proof { reveal_strlit(" "); }
    v.append(" ");
    let version = format_version();
    v.append(version.as_str());
    assert(v@ =~= spec_format_full_name());
    v
}

/// Returns the crate name and version, separated by a space.
pub fn crate_full_name() -> (v: String)
    ensures
        v@ == CRATE_NAME@ + seq![' '] + CRATE_VERSION@,
{
    let mut v = String::from_str(CRATE_NAME);
    proof { reveal_strlit(" "); }
    v.append(" ");
    v.append(CRATE_VERSION);
    v
}

} // verus!
