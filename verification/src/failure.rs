//! The error value that a failing read reports.

use vstd::prelude::*;

verus! {

/// `std::io::Error`, carried through verified code as an opaque value.
#[verifier::external_type_specification]
#[verifier::external_body]
pub struct ExIoError(std::io::Error);

/// Calls `std::io::Error::other` to build an I/O error of kind `Other` whose
/// payload is `message`. Nothing is claimed of the value: to the verifier an
/// I/O error has no contents.
#[verifier::external_body]
pub(crate) fn other_error(message: &str) -> std::io::Error {
    std::io::Error::other(message)
}

} // verus!
