//! Helpers shared by the flows: the clock, text, hashing, random strings, the
//! captcha verdict, input checks and the record store.

pub mod captcha;
pub mod clock;
pub mod db;
pub mod encryption;
pub mod random;
pub mod store;
pub mod text;
pub mod validation;
