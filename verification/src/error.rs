//! Errors that the platform's HTTP handlers answer with.
use vstd::prelude::*;
use crate::text::{append_str, copy_str};

verus! {

/// The HTTP status class of a refused request.
#[derive(Clone, Copy, Debug, PartialEq, Eq, Structural)]
pub enum ErrorKind {
    BadRequest,
    Unauthorized,
    NotFound,
    InternalServerError,
    BadGateway,
    ServiceUnavailable,
}

impl ErrorKind {
    /// The HTTP status code of the kind.
    pub open spec fn code(self) -> u16 {
        match self {
            ErrorKind::BadRequest => 400,
            ErrorKind::Unauthorized => 401,
            ErrorKind::NotFound => 404,
            ErrorKind::InternalServerError => 500,
            ErrorKind::BadGateway => 502,
            ErrorKind::ServiceUnavailable => 503,
        }
    }

    /// The HTTP status code of the kind.
    pub fn status_code(&self) -> (c: u16)
        ensures
            c == self.code(),
    {
        match self {
            ErrorKind::BadRequest => 400,
            ErrorKind::Unauthorized => 401,
            ErrorKind::NotFound => 404,
            ErrorKind::InternalServerError => 500,
            ErrorKind::BadGateway => 502,
            ErrorKind::ServiceUnavailable => 503,
        }
    }
}

/// A refused request: its status and the text sent back.
#[derive(Debug)]
pub struct ApiError {
    pub kind: ErrorKind,
    pub message: String,
}

impl ApiError {
    /// An error with a fixed message.
    pub fn new(kind: ErrorKind, text: &str) -> (e: ApiError)
        ensures
            e.kind == kind,
            e.message@ == text@,
    {
        ApiError { kind, message: copy_str(text) }
    }

    /// An error whose message is `prefix` followed by `detail`.
    pub fn with_detail(kind: ErrorKind, prefix: &str, detail: &str) -> (e: ApiError)
        ensures
            e.kind == kind,
            e.message@ == prefix@ + detail@,
    {
        let mut message = copy_str(prefix);
        append_str(&mut message, detail);
        ApiError { kind, message }
    }
}

} // verus!
