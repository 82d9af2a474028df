//! A third-party client that may ask for authorization codes.

use chrono::NaiveDateTime;
use vstd::prelude::*;

verus! {

/// A client row.
#[derive(Debug, PartialEq, Eq)]
pub struct Model {
    pub client_id: u32,
    pub official: bool,
    pub client_secret: String,
    pub created_at: Option<NaiveDateTime>,
    pub updated_at: Option<NaiveDateTime>,
}

} // verus!
