//! Declarations of the outside types that the library's signatures carry.

use vstd::prelude::*;

verus! {

/// `anyhow::Error`, the error type of the step results handed to the key
/// setup state machine and of `ProbeOutput::parse`.
#[verifier::external_type_specification]
#[verifier::external_body]
pub struct ExAnyhowError(anyhow::Error);

/// `std::path::PathBuf`, carried through the path helpers unopened.
#[verifier::external_type_specification]
#[verifier::external_body]
pub struct ExPathBuf(std::path::PathBuf);

/// `std::time::SystemTime`, a reading of the system clock.
#[verifier::external_type_specification]
#[verifier::external_body]
pub struct ExSystemTime(std::time::SystemTime);

} // verus!
