//! The error kinds a caller can see, each with its HTTP status and its tag.

use vstd::prelude::*;

verus! {

/// Every failure the service reports. Storage and network failures are never
/// shown in detail: they all surface as `InternalServerError`.
#[derive(Clone, Copy, Debug, PartialEq, Eq, Structural)]
pub enum Error {
    TimeOutOrDuplicateCaptcha,
    InvalidCaptcha,
    InternalServerError,
    BadRequest,
    NotFound,
    MissingCaptchaToken,
    IncorrectEmailOrPassword,
    Unauthorized,
    RegisteredEmail,
    InvalidToken,
    ExpiredToken,
    MissingScope,
}

impl Error {
    /// The HTTP status that goes with each error kind.
    pub open spec fn status(self) -> u16 {
        match self {
            Error::TimeOutOrDuplicateCaptcha => 400,
            Error::InvalidCaptcha => 400,
            Error::InternalServerError => 500,
            Error::BadRequest => 400,
            Error::NotFound => 404,
            Error::MissingCaptchaToken => 400,
            Error::IncorrectEmailOrPassword => 401,
            Error::Unauthorized => 401,
            Error::RegisteredEmail => 409,
            Error::InvalidToken => 400,
            Error::ExpiredToken => 401,
            Error::MissingScope => 403,
        }
    }

    /// The HTTP status to answer with.
    pub fn status_code(&self) -> (code: u16)
        ensures
            code == self.status(),
    {
        match self {
            Error::TimeOutOrDuplicateCaptcha => 400,
            Error::InvalidCaptcha => 400,
            Error::InternalServerError => 500,
            Error::BadRequest => 400,
            Error::NotFound => 404,
            Error::MissingCaptchaToken => 400,
            Error::IncorrectEmailOrPassword => 401,
            Error::Unauthorized => 401,
            Error::RegisteredEmail => 409,
            Error::InvalidToken => 400,
            Error::ExpiredToken => 401,
            Error::MissingScope => 403,
        }
    }
}

impl Error {
    /// The tag that names the error to a machine: the name of its kind.
    pub fn tag(&self) -> (text: &'static str)
        ensures
            text@ == (match self {
                Error::TimeOutOrDuplicateCaptcha => "TimeOutOrDuplicateCaptcha"@,
                Error::InvalidCaptcha => "InvalidCaptcha"@,
                Error::InternalServerError => "InternalServerError"@,
                Error::BadRequest => "BadRequest"@,
                Error::NotFound => "NotFound"@,
                Error::MissingCaptchaToken => "MissingCaptchaToken"@,
                Error::IncorrectEmailOrPassword => "IncorrectEmailOrPassword"@,
                Error::Unauthorized => "Unauthorized"@,
                Error::RegisteredEmail => "RegisteredEmail"@,
                Error::InvalidToken => "InvalidToken"@,
                Error::ExpiredToken => "ExpiredToken"@,
                Error::MissingScope => "MissingScope"@,
            }),
    {
        match self {
            Error::TimeOutOrDuplicateCaptcha => "TimeOutOrDuplicateCaptcha",
            Error::InvalidCaptcha => "InvalidCaptcha",
            Error::InternalServerError => "InternalServerError",
            Error::BadRequest => "BadRequest",
            Error::NotFound => "NotFound",
            Error::MissingCaptchaToken => "MissingCaptchaToken",
            Error::IncorrectEmailOrPassword => "IncorrectEmailOrPassword",
            Error::Unauthorized => "Unauthorized",
            Error::RegisteredEmail => "RegisteredEmail",
            Error::InvalidToken => "InvalidToken",
            Error::ExpiredToken => "ExpiredToken",
            Error::MissingScope => "MissingScope",
        }
    }
}

/// Whether a result is the expected one: the same error, or a success whose
/// view is the expected value.
pub open spec fn yields<T: DeepView>(result: Result<T, Error>, expected: Result<T::V, Error>) -> bool {
    match (result, expected) {
        (Ok(value), Ok(view)) => value.deep_view() == view,
        (Err(error), Err(other)) => error == other,
        _ => false,
    }
}

} // verus!
