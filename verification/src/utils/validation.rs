//! Checks on text that outside crates decide: e-mail addresses by `validator`,
//! mailboxes by `lettre`.

use vstd::prelude::*;

verus! {

/// Whether `validator` takes the text for an e-mail address.
pub uninterp spec fn email_accepted(text: Seq<char>) -> bool;

/// Whether `lettre` can read the text as a mailbox.
pub uninterp spec fn mailbox_accepted(text: Seq<char>) -> bool;

/// Calls `validator::ValidateEmail::validate_email` on the text.
///
/// Trusted: the answer is the named one.
#[verifier::external_body]
pub(crate) fn validate_email(text: &str) -> (ok: bool)
    ensures
        ok == email_accepted(text@),
{
    validator::ValidateEmail::validate_email(&text)
}

/// Calls `validator::ValidateLength::validate_length` on the text with a
/// lower and an upper bound.
///
/// Trusted: it counts characters and accepts a count within the bounds, both
/// included.
#[verifier::external_body]
pub(crate) fn validate_length(text: &str, min: u64, max: u64) -> (ok: bool)
    ensures
        ok == (min <= text@.len() <= max),
{
    validator::ValidateLength::validate_length(text, Some(min), Some(max), None)
}

/// Parses the text as a `lettre::message::Mailbox` and says whether that
/// worked.
///
/// Trusted: the answer is the named one.
#[verifier::external_body]
pub(crate) fn parses_as_mailbox(text: &str) -> (ok: bool)
    ensures
        ok == mailbox_accepted(text@),
{
    text.parse::<lettre::message::Mailbox>().is_ok()
}

} // verus!
