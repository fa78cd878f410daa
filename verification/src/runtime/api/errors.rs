//! Errors answered by the execution API.
use vstd::prelude::*;

verus! {

/// Kind of an API error, which fixes its HTTP status.
#[derive(Clone, Copy, Debug, PartialEq, Eq, Structural)]
pub enum ApiErrorKind {
    BadRequest,
    Unauthorized,
    Forbidden,
    NotFound,
    Conflict,
    Internal,
}

/// HTTP status of an error kind.
pub open spec fn status_of(kind: ApiErrorKind) -> u16 {
    match kind {
        ApiErrorKind::BadRequest => 400,
        ApiErrorKind::Unauthorized => 401,
        ApiErrorKind::Forbidden => 403,
        ApiErrorKind::NotFound => 404,
        ApiErrorKind::Conflict => 409,
        ApiErrorKind::Internal => 500,
    }
}

/// Code of an error kind in an error body.
pub open spec fn code_of(kind: ApiErrorKind) -> Seq<char> {
    match kind {
        ApiErrorKind::BadRequest => "invalid_argument"@,
        ApiErrorKind::Unauthorized => "unauthorized"@,
        ApiErrorKind::Forbidden => "forbidden"@,
        ApiErrorKind::NotFound => "not_found"@,
        ApiErrorKind::Conflict => "conflict"@,
        ApiErrorKind::Internal => "internal"@,
    }
}

/// An API error: its kind, message, the request it answers, and details as (name, text) pairs.
#[derive(Clone, Debug)]
pub struct ApiError {
    pub kind: ApiErrorKind,
    pub message: String,
    pub request_id: Option<String>,
    pub details: Vec<(String, String)>,
}

/// `r` is an API error of `kind` with message `m`.
pub open spec fn api_error_is<T>(r: Result<T, ApiError>, kind: ApiErrorKind, m: Seq<char>) -> bool {
    r matches Err(e) && e.kind == kind && e.message@ == m
}

/// `r` is an API error of `kind` with message `m`, answering request `rid`.
pub open spec fn api_error_for<T>(r: Result<T, ApiError>, kind: ApiErrorKind, m: Seq<char>, rid: Seq<char>) -> bool {
    match r {
        Err(e) => e.kind == kind && e.message@ == m && match e.request_id {
            Some(x) => x@ == rid,
            None => false,
        },
        Ok(_) => false,
    }
}

impl ApiError {
    /// An error of `kind` with `message` and no request id yet.
    pub fn new(kind: ApiErrorKind, message: &str) -> (r: Self)
        ensures
            r.kind == kind,
            r.message@ == message@,
            r.request_id is None,
            r.details@.len() == 0,
    {
        ApiError { kind, message: message.to_owned(), request_id: None, details: Vec::new() }
    }

    /// A bad-request error.
    pub fn bad_request(message: &str) -> (r: Self)
        ensures
            r.kind == ApiErrorKind::BadRequest,
            r.message@ == message@,
            r.request_id is None,
            r.details@.len() == 0,
    {
        ApiError::new(ApiErrorKind::BadRequest, message)
    }

    /// A not-found error.
    pub fn not_found(message: &str) -> (r: Self)
        ensures
            r.kind == ApiErrorKind::NotFound,
            r.message@ == message@,
            r.request_id is None,
            r.details@.len() == 0,
    {
        ApiError::new(ApiErrorKind::NotFound, message)
    }

    /// A conflict error.
    pub fn conflict(message: &str) -> (r: Self)
        ensures
            r.kind == ApiErrorKind::Conflict,
            r.message@ == message@,
            r.request_id is None,
            r.details@.len() == 0,
    {
        ApiError::new(ApiErrorKind::Conflict, message)
    }

    /// An internal error.
    pub fn internal(message: &str) -> (r: Self)
        ensures
            r.kind == ApiErrorKind::Internal,
            r.message@ == message@,
            r.request_id is None,
            r.details@.len() == 0,
    {
        ApiError::new(ApiErrorKind::Internal, message)
    }

    /// The same error answering request `rid`.
    pub fn with_request_id(self, rid: &str) -> (r: Self)
        ensures
            r.kind == self.kind,
            r.message == self.message,
            r.request_id matches Some(x) && x@ == rid@,
            r.details == self.details,
    {
        ApiError { kind: self.kind, message: self.message, request_id: Some(rid.to_owned()), details: self.details }
    }

    /// The same error with one more detail.
    pub fn with_detail(self, name: &str, value: &str) -> (r: Self)
        ensures
            r.kind == self.kind,
            r.message == self.message,
            r.request_id == self.request_id,
            r.details@.len() == self.details@.len() + 1,
            forall|i: int| 0 <= i < self.details@.len() ==> #[trigger] r.details@[i] == self.details@[i],
            r.details@.last().0@ == name@ && r.details@.last().1@ == value@,
    {
        let mut details = self.details;
        details.push((name.to_owned(), value.to_owned()));
        ApiError { kind: self.kind, message: self.message, request_id: self.request_id, details }
    }

    /// Code of the error in an error body.
    pub fn code(&self) -> (r: &'static str)
        ensures
            r@ == code_of(self.kind),
    {
        match self.kind {
            ApiErrorKind::BadRequest => "invalid_argument",
            ApiErrorKind::Unauthorized => "unauthorized",
            ApiErrorKind::Forbidden => "forbidden",
            ApiErrorKind::NotFound => "not_found",
            ApiErrorKind::Conflict => "conflict",
            ApiErrorKind::Internal => "internal",
        }
    }

    /// HTTP status of the error.
    pub fn status_code(&self) -> (r: u16)
        ensures
            r == status_of(self.kind),
    {
        match self.kind {
            ApiErrorKind::BadRequest => 400,
            ApiErrorKind::Unauthorized => 401,
            ApiErrorKind::Forbidden => 403,
            ApiErrorKind::NotFound => 404,
            ApiErrorKind::Conflict => 409,
            ApiErrorKind::Internal => 500,
        }
    }
}

} // verus!
