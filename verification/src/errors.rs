//! The error taxonomy of the service, with its mapping to HTTP status codes
//! and to the bodies sent back to the caller.

use vstd::prelude::*;

verus! {

/// A typed failure of a request.
///
/// `NotFound` and `OutdatedData` are user-actionable and carry their own
/// status codes; the remaining variants stand for failures of the external
/// collaborators (store, serializer, transport, event channel) and are all
/// surfaced as an opaque internal error.
#[derive(Debug)]
pub enum ApiError {
    Database,
    Serialization,
    IoError,
    Broadcast,
    Actix,
    NotFound(&'static str),
    OutdatedData,
}

impl ApiError {
    /// The HTTP status code a response for this error carries.
    pub fn status_code(&self) -> (code: u16)
        ensures
            code == match *self {
                ApiError::NotFound(_) => 404u16,
                ApiError::OutdatedData => 400u16,
                _ => 500u16,
            },
    {
        match self {
            ApiError::NotFound(_) => 404,
            ApiError::OutdatedData => 400,
            _ => 500,
        }
    }

    /// The body of the response for this error.
    pub fn error_response(&self) -> (body: String)
        ensures
            body@ == match *self {
                ApiError::OutdatedData =>
                    "Book from the request body has outdated updatedAt timestamp, send an actual one!"@,
                ApiError::NotFound(details) => "Not found: "@ + details@,
                _ => "Internal Server Error!"@,
            },
    {
        match self {
            ApiError::OutdatedData => String::from_str(
                "Book from the request body has outdated updatedAt timestamp, send an actual one!",
            ),
            ApiError::NotFound(details) => {
                let mut body = String::from_str("Not found: ");
                body.append(details);
                body
            },
            _ => String::from_str("Internal Server Error!"),
        }
    }
}

} // verus!
