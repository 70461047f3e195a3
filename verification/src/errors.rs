//! Turning an engine failure into the error type the surrounding program
//! propagates.
//!
//! A path-mapping failure is fatal for the whole run; the program reports it
//! as an I/O error carrying a message, like every other failure it meets.

use vstd::prelude::*;

verus! {

#[verifier::external_type_specification]
#[verifier::external_body]
pub struct ExIoError(std::io::Error);

/// Relies on std::io::Error::new: wraps `message` in an I/O error value of
/// kind `Other`.  Nothing about the value is needed by any proof; it exists
/// only to be handed upward and displayed.
#[verifier::external_body]
pub fn to_io_error(message: String) -> std::io::Error {
    std::io::Error::new(std::io::ErrorKind::Other, message)
}

} // verus!
