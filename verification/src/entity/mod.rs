//! The rows of the relational store, as the flows read and write them.

use vstd::prelude::*;

pub mod oauth_client;
pub mod user;

verus! {

/// A date and time without a zone, as `chrono` holds it. The flows carry such
/// values along and never look inside.
#[verifier::external_type_specification]
#[verifier::external_body]
pub struct ExNaiveDateTime(chrono::NaiveDateTime);

} // verus!
