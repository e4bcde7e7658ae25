//! The error type every operation of the client reports.
use vstd::prelude::*;
use crate::text::concat_str;

verus! {

/// An error of the client, as the user interface receives it.
#[derive(Debug)]
pub enum AppError {
    /// A local or transport I/O failure, with its description.
    Io(String),
    /// A failure reported by the SSH library, with its description.
    Ssh(String),
    /// A failure reported by the HTTP client, with its description.
    Http(String),
    SessionNotFound,
    TerminalNotFound,
    AuthFailed,
    /// A request the client refuses, with the reason.
    InvalidInput(String),
}

/// The abstract value of an [`AppError`].
pub enum ErrorView {
    Io(Seq<char>),
    Ssh(Seq<char>),
    Http(Seq<char>),
    SessionNotFound,
    TerminalNotFound,
    AuthFailed,
    InvalidInput(Seq<char>),
}

impl View for AppError {
    type V = ErrorView;

    open spec fn view(&self) -> ErrorView {
        match self {
            AppError::Io(m) => ErrorView::Io(m@),
            AppError::Ssh(m) => ErrorView::Ssh(m@),
            AppError::Http(m) => ErrorView::Http(m@),
            AppError::SessionNotFound => ErrorView::SessionNotFound,
            AppError::TerminalNotFound => ErrorView::TerminalNotFound,
            AppError::AuthFailed => ErrorView::AuthFailed,
            AppError::InvalidInput(m) => ErrorView::InvalidInput(m@),
        }
    }
}

/// The text shown for an error.
pub open spec fn error_message(e: ErrorView) -> Seq<char> {
    match e {
        ErrorView::Io(m) => "I/O error: "@ + m,
        ErrorView::Ssh(m) => "SSH error: "@ + m,
        ErrorView::Http(m) => "HTTP error: "@ + m,
        ErrorView::SessionNotFound => "Session not found"@,
        ErrorView::TerminalNotFound => "Terminal not found"@,
        ErrorView::AuthFailed => "Authentication failed"@,
        ErrorView::InvalidInput(m) => "Invalid input: "@ + m,
    }
}

impl AppError {
    /// The text shown for this error.
    pub fn message(&self) -> (r: String)
        ensures
            r@ == error_message(self@),
    {
        match self {
            AppError::Io(m) => concat_str("I/O error: ", m.as_str()),
            AppError::Ssh(m) => concat_str("SSH error: ", m.as_str()),
            AppError::Http(m) => concat_str("HTTP error: ", m.as_str()),
            AppError::SessionNotFound => "Session not found".to_owned(),
            AppError::TerminalNotFound => "Terminal not found".to_owned(),
            AppError::AuthFailed => "Authentication failed".to_owned(),
            AppError::InvalidInput(m) => concat_str("Invalid input: ", m.as_str()),
        }
    }
}

/// A refusal of a request with the given reason.
pub fn invalid_input(reason: &str) -> (e: AppError)
    ensures
        e@ == ErrorView::InvalidInput(reason@),
{
    AppError::InvalidInput(reason.to_owned())
}

/// The error reported when a shared state lock is poisoned.
pub fn state_lock_poisoned() -> (e: AppError)
    ensures
        e@ == ErrorView::InvalidInput("state lock poisoned"@),
{
    invalid_input("state lock poisoned")
}

} // verus!
