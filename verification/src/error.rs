//! What can go wrong when a field of a map is read as a typed value.

use vstd::prelude::*;

verus! {

/// A field that does not hold what its type asks for.
#[derive(Debug)]
pub enum FieldError {
    /// The date field does not hold a calendar date in the date format.
    Date(chrono::ParseError),
    /// The version field does not hold a semantic version.
    Version(semver::Error),
}

impl FieldError {
    /// Whether this error is about the date field.
    pub fn is_date(&self) -> (r: bool)
        ensures
            r == (self is Date),
    {
        match self {
            FieldError::Date(_) => true,
            FieldError::Version(_) => false,
        }
    }

    /// Whether this error is about the version field.
    pub fn is_version(&self) -> (r: bool)
        ensures
            r == (self is Version),
    {
        match self {
            FieldError::Date(_) => false,
            FieldError::Version(_) => true,
        }
    }
}

} // verus!
