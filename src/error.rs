//! The failures that a request can end in, each with its HTTP status.

use vstd::prelude::*;

verus! {

/// Why a request was not served.
#[derive(Debug, Clone, PartialEq, Eq)]
pub enum ApiError {
    /// Malformed input: a query string, a precondition, an unknown filter.
    BadRequest { message: String },
    /// The caller lacks a capability that the endpoint requires.
    Forbidden,
    /// No object has the requested key.
    NotFound,
    /// A mutation's precondition tag no longer matches the object.
    PreconditionFailed,
}

impl ApiError {
    /// The HTTP status code of this failure.
    pub fn status(&self) -> (r: u16)
        ensures
            r == match self {
                ApiError::BadRequest { .. } => 400u16,
                ApiError::Forbidden => 403u16,
                ApiError::NotFound => 404u16,
                ApiError::PreconditionFailed => 412u16,
            },
    {
        match self {
            ApiError::BadRequest { .. } => 400,
            ApiError::Forbidden => 403,
            ApiError::NotFound => 404,
            ApiError::PreconditionFailed => 412,
        }
    }
}

} // verus!
