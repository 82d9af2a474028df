//! The decisions of the service's operations. Each takes what the caller has
//! read from the request and the outside stores, and returns the reply
//! together with the writes that the record store is owed.

pub mod login;
pub mod oauth;
pub mod profile;
pub mod register;
