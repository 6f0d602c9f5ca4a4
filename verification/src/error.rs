//! Errors that the API answers requests with.

use vstd::prelude::*;

verus! {

/// An error answer of the API.
#[derive(Debug, Clone, PartialEq, Eq)]
pub enum ApiError {
    /// The request was well-formed but its content is refused.
    Validation(String),
    /// The request could not be read.
    BadRequest(String),
}

} // verus!
