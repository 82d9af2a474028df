use websxz_accounts_backend::data::error::Error;
use websxz_accounts_backend::data::AuthError;
use websxz_accounts_backend::utils::captcha::{captcha_error, verify_turnstile, Captcha};
use websxz_accounts_backend::utils::db::{map_database_error, StanderizeError};

fn codes(items: &[&str]) -> Vec<String> {
    items.iter().map(|s| s.to_string()).collect()
}

#[test]
fn every_error_has_its_status_and_tag() {
    let table = [
        (Error::TimeOutOrDuplicateCaptcha, 400, "TimeOutOrDuplicateCaptcha"),
        (Error::InvalidCaptcha, 400, "InvalidCaptcha"),
        (Error::InternalServerError, 500, "InternalServerError"),
        (Error::BadRequest, 400, "BadRequest"),
        (Error::NotFound, 404, "NotFound"),
        (Error::MissingCaptchaToken, 400, "MissingCaptchaToken"),
        (Error::IncorrectEmailOrPassword, 401, "IncorrectEmailOrPassword"),
        (Error::Unauthorized, 401, "Unauthorized"),
        (Error::RegisteredEmail, 409, "RegisteredEmail"),
        (Error::InvalidToken, 400, "InvalidToken"),
        (Error::ExpiredToken, 401, "ExpiredToken"),
        (Error::MissingScope, 403, "MissingScope"),
    ];
    for (error, status, tag) in table {
        assert_eq!(error.status_code(), status);
        assert_eq!(error.tag(), tag);
        assert_eq!(error.tag(), format!("{:?}", error));
    }
}

#[test]
fn every_auth_error_has_its_status_and_message() {
    let table = [
        (AuthError::WrongCredentials, 401, "Wrong credentials"),
        (AuthError::MissingCredentials, 400, "Missing credentials"),
        (AuthError::TokenCreation, 500, "Token creation error"),
        (AuthError::InvalidToken, 400, "Invalid token"),
        (AuthError::ExpiredToken, 401, "Token expired"),
    ];
    for (error, status, message) in table {
        assert_eq!(error.status_code(), status);
        assert_eq!(error.message(), message);
    }
}

#[test]
fn captcha_codes_map_to_errors() {
    assert_eq!(captcha_error(&"missing-input-response".to_string()), Error::MissingCaptchaToken);
    assert_eq!(captcha_error(&"invalid-input-response".to_string()), Error::InvalidCaptcha);
    assert_eq!(captcha_error(&"bad-request".to_string()), Error::BadRequest);
    assert_eq!(captcha_error(&"timeout-or-duplicate".to_string()), Error::TimeOutOrDuplicateCaptcha);
    assert_eq!(captcha_error(&"internal-error".to_string()), Error::InternalServerError);
    assert_eq!(captcha_error(&"missing-input-secret".to_string()), Error::InternalServerError);
    assert_eq!(captcha_error(&"".to_string()), Error::InternalServerError);
}

#[test]
fn turnstile_success_passes() {
    assert_eq!(verify_turnstile(true, &codes(&[])), Ok(()));
    assert_eq!(verify_turnstile(true, &codes(&["invalid-input-response"])), Ok(()));
}

#[test]
fn turnstile_failure_is_decided_by_the_first_code() {
    assert_eq!(
        verify_turnstile(false, &codes(&["timeout-or-duplicate", "invalid-input-response"])),
        Err(Error::TimeOutOrDuplicateCaptcha)
    );
    assert_eq!(
        verify_turnstile(false, &codes(&["invalid-input-response"])),
        Err(Error::InvalidCaptcha)
    );
    assert_eq!(
        verify_turnstile(false, &codes(&["unknown", "invalid-input-response"])),
        Err(Error::InternalServerError)
    );
}

#[test]
fn turnstile_failure_without_codes_is_an_internal_error() {
    assert_eq!(verify_turnstile(false, &codes(&[])), Err(Error::InternalServerError));
}

#[test]
fn captcha_hands_out_its_token() {
    assert_eq!(Captcha::Turnstile("response".to_string()).token(), "response");
}

#[test]
fn failures_fold_into_the_internal_error() {
    let good: Result<u8, String> = Ok(3);
    let bad: Result<u8, String> = Err("connection refused".to_string());
    assert_eq!(good.clone().warn_err(), Ok(3));
    assert_eq!(good.debug_err(), Ok(3));
    assert_eq!(bad.clone().warn_err(), Err(Error::InternalServerError));
    assert_eq!(bad.debug_err(), Err(Error::InternalServerError));
    assert_eq!(map_database_error("timeout"), Error::InternalServerError);
}
