//! Single application error type and its HTTP representation.
//!
//! This is the only place that decides how a failure becomes an HTTP status and a
//! body.

use vstd::prelude::*;

verus! {

/// All error cases the API can surface to a client.
#[derive(Debug)]
pub enum AppError {
    NotFound,
    Validation(String),
    Conflict(String),
    /// A failure whose cause is not shown to clients.
    Internal(String),
}

/// The contents of an [`AppError`].
pub enum Problem {
    NotFound,
    Validation(Seq<char>),
    Conflict(Seq<char>),
    Internal(Seq<char>),
}

impl View for AppError {
    type V = Problem;

    open spec fn view(&self) -> Problem {
        match *self {
            AppError::NotFound => Problem::NotFound,
            AppError::Validation(s) => Problem::Validation(s@),
            AppError::Conflict(s) => Problem::Conflict(s@),
            AppError::Internal(s) => Problem::Internal(s@),
        }
    }
}

/// The HTTP status of an error.
pub open spec fn status_of(p: Problem) -> int {
    match p {
        Problem::NotFound => 404,
        Problem::Validation(_) => 400,
        Problem::Conflict(_) => 409,
        Problem::Internal(_) => 500,
    }
}

/// What a client is told of an error.
pub open spec fn told(p: Problem) -> Seq<char> {
    match p {
        Problem::NotFound => "not found"@,
        Problem::Validation(s) => s,
        Problem::Conflict(s) => s,
        Problem::Internal(_) => "internal error"@,
    }
}

/// An error as it is answered: a status and the text of its `error` member.
#[derive(Debug)]
pub struct ErrorResponse {
    pub status: u16,
    pub error: String,
}

impl AppError {
    /// The HTTP status of the error.
    pub fn status(&self) -> (code: u16)
        ensures
            code == status_of(self@),
    {
        match self {
            AppError::NotFound => 404,
            AppError::Validation(_) => 400,
            AppError::Conflict(_) => 409,
            AppError::Internal(_) => 500,
        }
    }

    /// What a client is told. The cause of an internal failure is not part of it.
    pub fn message(&self) -> (s: String)
        ensures
            s@ == told(self@),
    {
        match self {
            AppError::NotFound => "not found".to_owned(),
            AppError::Validation(s) => s.clone(),
            AppError::Conflict(s) => s.clone(),
            AppError::Internal(_) => "internal error".to_owned(),
        }
    }

    /// The error as it is answered.
    pub fn into_response(self) -> (r: ErrorResponse)
        ensures
            r.status == status_of(self@),
            r.error@ == told(self@),
    {
        ErrorResponse { status: self.status(), error: self.message() }
    }
}

/// What a client whose bucket is empty is answered.
pub fn rate_limited() -> (r: ErrorResponse)
    ensures
        r.status == 429,
        r.error@ == "rate limit exceeded"@,
{
    ErrorResponse { status: 429, error: "rate limit exceeded".to_owned() }
}

/// Two internal failures are answered alike, whatever their causes.
pub proof fn causes_do_not_leak(a: Seq<char>, b: Seq<char>)
    ensures
        told(Problem::Internal(a)) == told(Problem::Internal(b)),
        status_of(Problem::Internal(a)) == status_of(Problem::Internal(b)),
{
}

/// A client is told what is wrong with its request, and of a failure only that there was
/// one.
pub proof fn clients_are_told_what_they_can_mend(e: AppError, s: String, code: u16)
    requires
        call_ensures(AppError::message, (&e,), s),
        call_ensures(AppError::status, (&e,), code),
    ensures
        e is NotFound ==> s@ == "not found"@ && code == 404,
        e matches AppError::Validation(t) ==> s@ == t@ && code == 400,
        e matches AppError::Conflict(t) ==> s@ == t@ && code == 409,
        e is Internal ==> s@ == "internal error"@ && code == 500,
{
}

/// An error is answered with its status and with what its client is told; a client whose
/// bucket is empty is answered 429.
pub proof fn errors_are_answered_with_their_status(e: AppError, r: ErrorResponse, limited: ErrorResponse)
    requires
        call_ensures(AppError::into_response, (e,), r),
        call_ensures(rate_limited, (), limited),
    ensures
        e is NotFound ==> r.status == 404 && r.error@ == "not found"@,
        e matches AppError::Validation(t) ==> r.status == 400 && r.error@ == t@,
        e matches AppError::Conflict(t) ==> r.status == 409 && r.error@ == t@,
        e is Internal ==> r.status == 500 && r.error@ == "internal error"@,
        limited.status == 429 && limited.error@ == "rate limit exceeded"@,
{
}

} // verus!
