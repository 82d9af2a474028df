//! Core of an account service: scoped session tokens, the short-lived records
//! behind refresh tokens, e-mail verification and authorization codes, and the
//! decisions of the login, registration and authorization-code flows.
//!
//! Everything here is a function from plain values to plain values. Reading a
//! request, talking to the user database, the record store, the captcha
//! verifier or the mail server is left to the caller, which hands the replies
//! in and carries the returned commands out.

pub mod data;
pub mod entity;
pub mod handler;
pub mod utils;
