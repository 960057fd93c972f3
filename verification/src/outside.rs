//! The types of other crates that values of this library carry.

use vstd::prelude::*;

verus! {

/// The error with which `semver` refuses a text.
#[verifier::external_type_specification]
#[verifier::external_body]
pub struct ExSemverError(semver::Error);

/// The error with which `chrono` refuses a text.
#[verifier::external_type_specification]
#[verifier::external_body]
pub struct ExChronoParseError(chrono::ParseError);

} // verus!
