//! The failures that the library reports.

use vstd::prelude::*;

verus! {

/// Why a request to the cache did not give a usable answer.
#[derive(Clone, Copy, Debug, PartialEq, Eq, Structural)]
pub enum CacheError {
    /// The cache could not be reached, or answered with a protocol error.
    Transport,
    /// The cache answered, but not with a value of the expected type.
    Decode,
}

/// Why a request of a client was turned down.
#[derive(Clone, Debug, PartialEq, Eq)]
pub enum AppError {
    /// The item that the request names does not exist, or no longer exists.
    NotFound,
    /// The caller may not do what it asked for.
    NoPermission(String),
    /// The request itself is malformed.
    BadRequest(String),
}

/// An [`AppError`] with its message as a sequence of characters.
pub ghost enum AppErrorView {
    NotFound,
    NoPermission(Seq<char>),
    BadRequest(Seq<char>),
}

impl View for AppError {
    type V = AppErrorView;

    open spec fn view(&self) -> AppErrorView {
        match self {
            AppError::NotFound => AppErrorView::NotFound,
            AppError::NoPermission(message) => AppErrorView::NoPermission(message@),
            AppError::BadRequest(message) => AppErrorView::BadRequest(message@),
        }
    }
}

/// The outcome of a request with its error, if any, taken by its view.
pub open spec fn outcome_view<T>(outcome: Result<T, AppError>) -> Result<T, AppErrorView> {
    match outcome {
        Ok(value) => Ok(value),
        Err(error) => Err(error@),
    }
}

impl AppError {
    /// A permission failure with the given message.
    pub fn no_permission(message: &str) -> (error: AppError)
        ensures
            error@ == AppErrorView::NoPermission(message@),
    {
        AppError::NoPermission(String::from_str(message))
    }

    /// A bad request with the given message.
    pub fn bad_request(message: &str) -> (error: AppError)
        ensures
            error@ == AppErrorView::BadRequest(message@),
    {
        AppError::BadRequest(String::from_str(message))
    }
}

} // verus!
