//! The standard library error type that this crate's errors carry.

use vstd::prelude::*;

verus! {

/// The error type of standard I/O.
#[verifier::external_type_specification]
#[verifier::external_body]
pub struct ExIoError(std::io::Error);

} // verus!
