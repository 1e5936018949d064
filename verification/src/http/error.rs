//! The error answers of the HTTP API.
use vstd::prelude::*;

use crate::text::copy_str;

verus! {

/// What went wrong while answering a request.
#[derive(Clone, Debug, PartialEq, Eq)]
pub enum AppError {
    /// The metadata service did not answer in time.
    MetadataTimeout,
    /// The metadata service knows no such work.
    MetadataNoMatch,
    /// The metadata service failed otherwise.
    Metadata,
    Database,
    NotFound(String),
    BadRequest(String),
    Unauthorized(String),
    Forbidden(String),
    Internal,
}

/// The status and message of an error answer; internal details are not
/// shown.
pub open spec fn error_response_spec(e: AppError) -> (u16, Seq<char>) {
    match e {
        AppError::MetadataTimeout => (504, "Metadata service timed out"@),
        AppError::MetadataNoMatch => (404, "No matching work found"@),
        AppError::Metadata => (502, "Error from metadata service"@),
        AppError::Database => (500, "Database error"@),
        AppError::NotFound(m) => (404, m@),
        AppError::BadRequest(m) => (400, m@),
        AppError::Unauthorized(m) => (401, m@),
        AppError::Forbidden(m) => (403, m@),
        AppError::Internal => (500, "An internal error occurred"@),
    }
}

impl AppError {
    /// The HTTP status and the message of the `{"error": …}` answer.
    pub fn status_and_message(&self) -> (r: (u16, String))
        ensures
            (r.0, r.1@) == error_response_spec(*self),
    {
        match self {
            AppError::MetadataTimeout => (504, copy_str("Metadata service timed out")),
            AppError::MetadataNoMatch => (404, copy_str("No matching work found")),
            AppError::Metadata => (502, copy_str("Error from metadata service")),
            AppError::Database => (500, copy_str("Database error")),
            AppError::NotFound(m) => (404, copy_str(m.as_str())),
            AppError::BadRequest(m) => (400, copy_str(m.as_str())),
            AppError::Unauthorized(m) => (401, copy_str(m.as_str())),
            AppError::Forbidden(m) => (403, copy_str(m.as_str())),
            AppError::Internal => (500, copy_str("An internal error occurred")),
        }
    }
}

} // verus!
