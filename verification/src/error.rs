//! The error taxonomy the service surfaces to clients.

use vstd::prelude::*;

verus! {

/// Everything a request can fail with: either the target row does not exist,
/// or the storage layer failed and its message is kept verbatim.
#[derive(Debug, PartialEq, Eq)]
pub enum ServiceError {
    /// The request named an id that no row carries.
    NotFound,
    /// A storage operation failed; the field holds the driver's message.
    Storage(String),
}

impl ServiceError {
    /// The HTTP status code that answers this error.
    pub fn status_code(&self) -> (code: u16)
        ensures
            self is NotFound ==> code == 404,
            self is Storage ==> code == 500,
    {
        match self {
            ServiceError::NotFound => 404,
            ServiceError::Storage(_) => 500,
        }
    }

    /// The response body for this error: a fixed phrase for a missing row,
    /// the driver's message verbatim for a storage failure.
    pub fn message(self) -> (body: String)
        ensures
            self is NotFound ==> body@ == "user not found"@,
            self matches ServiceError::Storage(text) ==> body@ == text@,
    {
        match self {
            ServiceError::NotFound => "user not found".to_owned(),
            ServiceError::Storage(text) => text,
        }
    }
}

} // verus!
