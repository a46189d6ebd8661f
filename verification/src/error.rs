//! Errors of request handling and the HTTP status each one is answered with.
use vstd::prelude::*;

use crate::text::push_str;

verus! {

/// Why a request failed.
#[derive(Clone, Debug)]
pub enum AppError {
    BadRequest(String),
    Unauthorized,
    Forbidden,
    NotFound(String),
    Conflict(String),
    PayloadTooLarge(String),
    RangeNotSatisfiable,
    RemoteRejected(String),
    MediaNotReady,
    /// A database failure, with its description.
    Database(String),
    /// A file-system failure, with its description.
    Io(String),
    /// A malformed multipart body, with its description.
    Multipart(String),
    /// An outgoing HTTP failure, with its description.
    Http(String),
    /// Any other failure, with its description.
    Internal(String),
}

impl AppError {
    /// The HTTP status and the error code clients see.
    pub open spec fn status_and_code_spec(self) -> (u16, Seq<char>) {
        match self {
            AppError::BadRequest(_) | AppError::Multipart(_) | AppError::RemoteRejected(_) => (
                400,
                "bad_request"@,
            ),
            AppError::Unauthorized => (401, "unauthorized"@),
            AppError::Forbidden => (403, "forbidden"@),
            AppError::NotFound(_) => (404, "not_found"@),
            AppError::Conflict(_) => (409, "conflict"@),
            AppError::PayloadTooLarge(_) => (413, "payload_too_large"@),
            AppError::RangeNotSatisfiable => (416, "range_not_satisfiable"@),
            AppError::MediaNotReady => (409, "media_not_ready"@),
            AppError::Database(_) | AppError::Io(_) | AppError::Http(_) | AppError::Internal(_) => (
                500,
                "internal_error"@,
            ),
        }
    }

    /// The HTTP status and the error code clients see.
    pub fn status_and_code(&self) -> (r: (u16, &'static str))
        ensures
            r.0 == self.status_and_code_spec().0,
            r.1@ == self.status_and_code_spec().1,
    {
        match self {
            AppError::BadRequest(_) | AppError::Multipart(_) | AppError::RemoteRejected(_) => (
                400,
                "bad_request",
            ),
            AppError::Unauthorized => (401, "unauthorized"),
            AppError::Forbidden => (403, "forbidden"),
            AppError::NotFound(_) => (404, "not_found"),
            AppError::Conflict(_) => (409, "conflict"),
            AppError::PayloadTooLarge(_) => (413, "payload_too_large"),
            AppError::RangeNotSatisfiable => (416, "range_not_satisfiable"),
            AppError::MediaNotReady => (409, "media_not_ready"),
            AppError::Database(_) | AppError::Io(_) | AppError::Http(_) | AppError::Internal(_) => (
                500,
                "internal_error",
            ),
        }
    }

    /// Wraps any other failure.
    pub fn internal(description: String) -> (e: AppError)
        ensures
            e == AppError::Internal(description),
    {
        AppError::Internal(description)
    }

    /// The description of the error (its `Display` text).
    pub open spec fn text(self) -> Seq<char> {
        match self {
            AppError::BadRequest(m) | AppError::NotFound(m) | AppError::Conflict(m) => m@,
            AppError::Unauthorized => "authentication is required"@,
            AppError::Forbidden => "permission denied"@,
            AppError::PayloadTooLarge(m) => "request body is too large: "@ + m@,
            AppError::RangeNotSatisfiable => "requested byte range cannot be satisfied"@,
            AppError::RemoteRejected(m) => "remote resource was rejected: "@ + m@,
            AppError::MediaNotReady => "media is not ready for playback"@,
            AppError::Database(m) | AppError::Io(m) | AppError::Multipart(m) | AppError::Http(m) => m@,
            AppError::Internal(_) => "internal server error"@,
        }
    }

    /// The description of the error (its `Display` text).
    pub fn message(&self) -> (m: String)
        ensures
            m@ == self.text(),
    {
        match self {
            AppError::BadRequest(m) | AppError::NotFound(m) | AppError::Conflict(m) => m.clone(),
            AppError::Unauthorized => "authentication is required".to_owned(),
            AppError::Forbidden => "permission denied".to_owned(),
            AppError::PayloadTooLarge(m) => {
                let mut s = "request body is too large: ".to_owned();
                push_str(&mut s, m.as_str());
                s
            },
            AppError::RangeNotSatisfiable => "requested byte range cannot be satisfied".to_owned(),
            AppError::RemoteRejected(m) => {
                let mut s = "remote resource was rejected: ".to_owned();
                push_str(&mut s, m.as_str());
                s
            },
            AppError::MediaNotReady => "media is not ready for playback".to_owned(),
            AppError::Database(m) | AppError::Io(m) | AppError::Multipart(m) | AppError::Http(m) => {
                m.clone()
            },
            AppError::Internal(_) => "internal server error".to_owned(),
        }
    }

    /// The message clients see: the description, except for server errors,
    /// which all read `internal server error`.
    pub fn client_message(&self) -> (m: String)
        ensures
            self.status_and_code_spec().0 >= 500 ==> m@ == "internal server error"@,
            self.status_and_code_spec().0 < 500 ==> m@ == self.text(),
    {
        let (status, _) = self.status_and_code();
        if status >= 500 {
            "internal server error".to_owned()
        } else {
            self.message()
        }
    }
}

} // verus!
