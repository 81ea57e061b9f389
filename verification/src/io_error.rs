//! I/O errors of the standard library.

use vstd::prelude::*;

verus! {

/// The I/O error of the standard library.
#[verifier::external_type_specification]
#[verifier::external_body]
pub struct ExIoError(std::io::Error);

/// `Display` of `std::io::Error`. The text depends on the system, so nothing is claimed of it.
#[verifier::external_body]
pub(crate) fn io_error_text(e: &std::io::Error) -> (s: String)
{
    format!("{}", e)
}

} // verus!
