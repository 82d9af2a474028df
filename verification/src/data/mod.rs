//! Values that cross the service boundary: errors, scopes and token claims.

use vstd::prelude::*;

pub mod credential;
pub mod error;
pub mod jwt;
pub mod scope;

pub use credential::{generate_token, Claims};

verus! {

/// The ways authentication alone can fail.
#[derive(Clone, Copy, Debug, PartialEq, Eq, Structural)]
pub enum AuthError {
    WrongCredentials,
    MissingCredentials,
    TokenCreation,
    InvalidToken,
    ExpiredToken,
}

impl AuthError {
    /// The HTTP status that goes with each failure.
    pub open spec fn status(self) -> u16 {
        match self {
            AuthError::WrongCredentials => 401,
            AuthError::MissingCredentials => 400,
            AuthError::TokenCreation => 500,
            AuthError::InvalidToken => 400,
            AuthError::ExpiredToken => 401,
        }
    }

    /// The HTTP status to answer with.
    pub fn status_code(&self) -> (code: u16)
        ensures
            code == self.status(),
    {
        match self {
            AuthError::WrongCredentials => 401,
            AuthError::MissingCredentials => 400,
            AuthError::TokenCreation => 500,
            AuthError::InvalidToken => 400,
            AuthError::ExpiredToken => 401,
        }
    }

    /// The sentence to answer with.
    pub fn message(&self) -> (text: &'static str)
        ensures
            text@ == (match self {
                AuthError::WrongCredentials => "Wrong credentials"@,
                AuthError::MissingCredentials => "Missing credentials"@,
                AuthError::TokenCreation => "Token creation error"@,
                AuthError::InvalidToken => "Invalid token"@,
                AuthError::ExpiredToken => "Token expired"@,
            }),
    {
        match self {
            AuthError::WrongCredentials => "Wrong credentials",
            AuthError::MissingCredentials => "Missing credentials",
            AuthError::TokenCreation => "Token creation error",
            AuthError::InvalidToken => "Invalid token",
            AuthError::ExpiredToken => "Token expired",
        }
    }
}

} // verus!
