//! The errors of the library, and the errors a request handler answers with.
use vstd::prelude::*;

verus! {

/// Why an operation of the library failed. Failures that come from storage,
/// image codecs or the time zone database carry the outside error's message.
#[derive(Debug)]
pub enum Error {
    Unauthorized,
    BadToken,
    NotFound,
    Db(String),
    Migrate(String),
    BadImage(String),
    UnsupportedImage,
    Resize(String),
    Time(String),
    Io(String),
}

/// The text an error is displayed as: a fixed phrase, or the outside error's
/// own message for the variants that pass it through.
pub open spec fn error_message(e: Error) -> Seq<char> {
    match e {
        Error::Unauthorized => "unauthorized"@,
        Error::BadToken => "malformed session token"@,
        Error::NotFound => "not found"@,
        Error::Db(m) => m@,
        Error::Migrate(m) => m@,
        Error::BadImage(_) => "unreadable image"@,
        Error::UnsupportedImage => "unsupported pixel format"@,
        Error::Resize(_) => "resize failed"@,
        Error::Time(_) => "invalid timezone or timestamp"@,
        Error::Io(m) => m@,
    }
}

impl Error {
    /// The text the error is displayed as.
    pub fn message(&self) -> (r: String)
        ensures
            r@ == error_message(*self),
    {
        match self {
            Error::Unauthorized => String::from_str("unauthorized"),
            Error::BadToken => String::from_str("malformed session token"),
            Error::NotFound => String::from_str("not found"),
            Error::Db(m) => m.clone(),
            Error::Migrate(m) => m.clone(),
            Error::BadImage(_) => String::from_str("unreadable image"),
            Error::UnsupportedImage => String::from_str("unsupported pixel format"),
            Error::Resize(_) => String::from_str("resize failed"),
            Error::Time(_) => String::from_str("invalid timezone or timestamp"),
            Error::Io(m) => m.clone(),
        }
    }
}

/// What a request handler fails with: an error of the library, a malformed
/// request, or a failure that never reached the library (a page that would
/// not render).
#[derive(Debug)]
pub enum AppError {
    Domain(Error),
    BadRequest(String),
    Internal(String),
}

/// The HTTP status a failure is answered with.
pub open spec fn status_of(e: AppError) -> u16 {
    match e {
        AppError::BadRequest(_) => 400,
        AppError::Internal(_) => 500,
        AppError::Domain(d) => match d {
            Error::NotFound => 404,
            Error::Unauthorized | Error::BadToken => 401,
            Error::BadImage(_) | Error::UnsupportedImage => 415,
            Error::Time(_) => 400,
            Error::Db(_) | Error::Migrate(_) | Error::Resize(_) | Error::Io(_) => 500,
        },
    }
}

/// How a failure is logged: the detail of a server error is logged as an
/// error, a rejected request as a debug line, and a client error of the
/// library not at all. The detail never goes to the client.
pub enum LogLevel {
    Error,
    Debug,
    Silent,
}

pub open spec fn log_level_of(e: AppError) -> LogLevel {
    match e {
        AppError::Domain(_) => if 500 <= status_of(e) {
            LogLevel::Error
        } else {
            LogLevel::Silent
        },
        AppError::Internal(_) => LogLevel::Error,
        AppError::BadRequest(_) => LogLevel::Debug,
    }
}

impl AppError {
    /// A malformed request, with the reason to log.
    pub fn bad_request(message: String) -> (r: AppError)
        ensures
            r == AppError::BadRequest(message),
    {
        AppError::BadRequest(message)
    }

    /// A failure outside the library, with the reason to log.
    pub fn internal(message: String) -> (r: AppError)
        ensures
            r == AppError::Internal(message),
    {
        AppError::Internal(message)
    }

    /// The HTTP status this failure is answered with.
    pub fn status(&self) -> (r: u16)
        ensures
            r == status_of(*self),
    {
        match self {
            AppError::BadRequest(_) => 400,
            AppError::Internal(_) => 500,
            AppError::Domain(d) => match d {
                Error::NotFound => 404,
                Error::Unauthorized | Error::BadToken => 401,
                Error::BadImage(_) | Error::UnsupportedImage => 415,
                Error::Time(_) => 400,
                Error::Db(_) | Error::Migrate(_) | Error::Resize(_) | Error::Io(_) => 500,
            },
        }
    }

    /// How this failure is logged.
    pub fn log_level(&self) -> (r: LogLevel)
        ensures
            r == log_level_of(*self),
    {
        match self {
            AppError::Domain(_) => {
                if self.status() >= 500 {
                    LogLevel::Error
                } else {
                    LogLevel::Silent
                }
            },
            AppError::Internal(_) => LogLevel::Error,
            AppError::BadRequest(_) => LogLevel::Debug,
        }
    }
}

impl From<Error> for AppError {
    fn from(e: Error) -> (r: AppError) {
        AppError::Domain(e)
    }
}

impl vstd::std_specs::convert::FromSpecImpl<Error> for AppError {
    open spec fn obeys_from_spec() -> bool {
        true
    }

    open spec fn from_spec(e: Error) -> AppError {
        AppError::Domain(e)
    }
}

/// Every error of the library is answered with a client error or a server
/// error, never with success.
pub proof fn law_failures_are_never_success(e: AppError)
    ensures
        400 <= status_of(e) <= 599,
{
}

} // verus!
