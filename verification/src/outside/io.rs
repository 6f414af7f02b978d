//! Errors of the operating system.
use vstd::prelude::*;

verus! {

/// `std::io::Error`, which the library carries to the caller and never looks into.
#[verifier::external_type_specification]
#[verifier::external_body]
pub struct ExIoError(std::io::Error);

} // verus!
