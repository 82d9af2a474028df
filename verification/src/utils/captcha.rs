//! The captcha a request carries, and how the verifier's answer is read.

use crate::data::error::Error;
use vstd::prelude::*;

verus! {

/// The proof of humanity that comes with a login or a registration.
#[derive(Debug, Clone)]
pub enum Captcha {
    /// A Turnstile response token.
    Turnstile(String),
}

impl DeepView for Captcha {
    type V = Seq<char>;

    open spec fn deep_view(&self) -> Seq<char> {
        match self {
            Captcha::Turnstile(token) => token@,
        }
    }
}

impl Captcha {
    /// The response token to send to the verifier.
    pub fn token(&self) -> (token: &str)
        ensures
            token@ == self.deep_view(),
    {
        match self {
            Captcha::Turnstile(token) => token.as_str(),
        }
    }
}

/// The error that one of the verifier's error codes stands for.
pub open spec fn code_error(code: Seq<char>) -> Error {
    if code == "missing-input-response"@ {
        Error::MissingCaptchaToken
    } else if code == "invalid-input-response"@ {
        Error::InvalidCaptcha
    } else if code == "bad-request"@ {
        Error::BadRequest
    } else if code == "timeout-or-duplicate"@ {
        Error::TimeOutOrDuplicateCaptcha
    } else {
        Error::InternalServerError
    }
}

/// How the verifier's answer is read: success passes; otherwise the first
/// error code decides, and an answer without codes is an internal error.
pub open spec fn turnstile_verdict(success: bool, error_codes: Seq<Seq<char>>) -> Result<
    (),
    Error,
> {
    if success {
        Ok(())
    } else if error_codes.len() == 0 {
        Err(Error::InternalServerError)
    } else {
        Err(code_error(error_codes[0]))
    }
}

/// The error that one of the verifier's error codes stands for. Codes that a
/// user cannot cause count as internal errors.
pub fn captcha_error(code: &String) -> (error: Error)
    ensures
        error == code_error(code@),
{
    if *code == "missing-input-response".to_owned() {
        Error::MissingCaptchaToken
    } else if *code == "invalid-input-response".to_owned() {
        Error::InvalidCaptcha
    } else if *code == "bad-request".to_owned() {
        Error::BadRequest
    } else if *code == "timeout-or-duplicate".to_owned() {
        Error::TimeOutOrDuplicateCaptcha
    } else {
        Error::InternalServerError
    }
}

/// Reads the answer of the Turnstile verifier.
pub fn verify_turnstile(success: bool, error_codes: &Vec<String>) -> (outcome: Result<(), Error>)
    ensures
        outcome == turnstile_verdict(success, error_codes.deep_view()),
{
    if success {
        Ok(())
    } else if error_codes.len() == 0 {
        Err(Error::InternalServerError)
    } else {
        proof {
            assert(error_codes.deep_view()[0] == error_codes@[0]@);
        }
        Err(captcha_error(&error_codes[0]))
    }
}

} // verus!
