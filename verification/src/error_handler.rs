//! The errors that a request can end in, their wording and their HTTP
//! status codes.

use crate::text::i64_to_decimal;
use vstd::prelude::*;

verus! {

/// An error that ends a request.
#[derive(Debug)]
pub enum AppError {
    InternalError(String),
    DatabaseError(String),
    AuthenticationError(String),
    ValidationError(String),
    NotFound(String),
    RateLimitExceeded,
}

/// The mathematical value of an [`AppError`].
pub enum AppErrorView {
    InternalError(Seq<char>),
    DatabaseError(Seq<char>),
    AuthenticationError(Seq<char>),
    ValidationError(Seq<char>),
    NotFound(Seq<char>),
    RateLimitExceeded,
}

impl View for AppError {
    type V = AppErrorView;

    open spec fn view(&self) -> AppErrorView {
        match self {
            AppError::InternalError(m) => AppErrorView::InternalError(m@),
            AppError::DatabaseError(m) => AppErrorView::DatabaseError(m@),
            AppError::AuthenticationError(m) => AppErrorView::AuthenticationError(m@),
            AppError::ValidationError(m) => AppErrorView::ValidationError(m@),
            AppError::NotFound(m) => AppErrorView::NotFound(m@),
            AppError::RateLimitExceeded => AppErrorView::RateLimitExceeded,
        }
    }
}

/// The error in words, for logs.
pub open spec fn display_text(e: AppErrorView) -> Seq<char> {
    match e {
        AppErrorView::InternalError(m) => "Internal server error: "@ + m,
        AppErrorView::DatabaseError(m) => "Database error: "@ + m,
        AppErrorView::AuthenticationError(m) => "Authentication error: "@ + m,
        AppErrorView::ValidationError(m) => "Validation error: "@ + m,
        AppErrorView::NotFound(m) => "Not found: "@ + m,
        AppErrorView::RateLimitExceeded => "Rate limit exceeded"@,
    }
}

/// The HTTP status code that the error is answered with.
pub open spec fn status_of(e: AppErrorView) -> u16 {
    match e {
        AppErrorView::InternalError(_) => 500,
        AppErrorView::DatabaseError(_) => 500,
        AppErrorView::AuthenticationError(_) => 401,
        AppErrorView::ValidationError(_) => 400,
        AppErrorView::NotFound(_) => 404,
        AppErrorView::RateLimitExceeded => 429,
    }
}

/// What the caller is told of the error. The cause of a database error is
/// kept from the caller.
pub open spec fn public_text(e: AppErrorView) -> Seq<char> {
    match e {
        AppErrorView::InternalError(m) => m,
        AppErrorView::DatabaseError(_) => "Database error occurred"@,
        AppErrorView::AuthenticationError(m) => m,
        AppErrorView::ValidationError(m) => m,
        AppErrorView::NotFound(m) => m,
        AppErrorView::RateLimitExceeded => "Rate limit exceeded. Please try again later."@,
    }
}

/// The body of the error response: the status code and what the caller is
/// told.
pub open spec fn body_text(e: AppErrorView) -> Seq<char> {
    "Error "@ + crate::text::decimal(status_of(e) as int) + ": "@ + public_text(e)
}

/// `prefix` followed by `rest`.
fn prefixed(prefix: &str, rest: &str) -> (s: String)
    ensures
        s@ == prefix@ + rest@,
{
    let mut s = String::new();
    s.push_str(prefix);
    s.push_str(rest);
    s
}

impl AppError {
    /// The error in words, for logs.
    pub fn to_string(&self) -> (s: String)
        ensures
            s@ == display_text(self@),
    {
        match self {
            AppError::InternalError(m) => prefixed("Internal server error: ", m.as_str()),
            AppError::DatabaseError(m) => prefixed("Database error: ", m.as_str()),
            AppError::AuthenticationError(m) => prefixed("Authentication error: ", m.as_str()),
            AppError::ValidationError(m) => prefixed("Validation error: ", m.as_str()),
            AppError::NotFound(m) => prefixed("Not found: ", m.as_str()),
            AppError::RateLimitExceeded => "Rate limit exceeded".to_owned(),
        }
    }

    /// The HTTP status code that the error is answered with.
    pub fn status_code(&self) -> (code: u16)
        ensures
            code == status_of(self@),
    {
        match self {
            AppError::InternalError(_) => 500,
            AppError::DatabaseError(_) => 500,
            AppError::AuthenticationError(_) => 401,
            AppError::ValidationError(_) => 400,
            AppError::NotFound(_) => 404,
            AppError::RateLimitExceeded => 429,
        }
    }

    /// The body of the error response.
    pub fn error_body(&self) -> (body: String)
        ensures
            body@ == body_text(self@),
    {
        let mut body = String::new();
        body.push_str("Error ");
        let code = self.status_code();
        body.push_str(i64_to_decimal(code as i64).as_str());
        body.push_str(": ");
        match self {
            AppError::InternalError(m) => body.push_str(m.as_str()),
            AppError::DatabaseError(_) => body.push_str("Database error occurred"),
            AppError::AuthenticationError(m) => body.push_str(m.as_str()),
            AppError::ValidationError(m) => body.push_str(m.as_str()),
            AppError::NotFound(m) => body.push_str(m.as_str()),
            AppError::RateLimitExceeded => body.push_str(
                "Rate limit exceeded. Please try again later.",
            ),
        }
        body
    }
}

} // verus!
