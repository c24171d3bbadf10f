//! Errors of input and output.

use vstd::prelude::*;

verus! {

/// The error type of input and output.
#[verifier::external_type_specification]
#[verifier::external_body]
pub struct ExIoError(std::io::Error);

} // verus!
