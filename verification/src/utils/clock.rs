//! The wall clock, in whole seconds since the Unix epoch.

use vstd::prelude::*;

verus! {

/// Calls `chrono::Utc::now` and takes its `timestamp`. The value is whatever
/// the machine's clock says: nothing is promised of it.
#[verifier::external_body]
pub(crate) fn utc_timestamp() -> i64 {
    chrono::Utc::now().timestamp()
}

/// A clock reading as the unsigned second count that tokens carry: a reading
/// before the epoch counts as the epoch itself.
pub open spec fn seconds_of(reading: i64) -> u64 {
    if reading < 0 {
        0
    } else {
        reading as u64
    }
}

/// Turns a clock reading into an unsigned second count.
pub fn seconds(reading: i64) -> (s: u64)
    ensures
        s == seconds_of(reading),
{
    if reading < 0 {
        0
    } else {
        reading as u64
    }
}

/// The second that lies `ttl` seconds after `now`. It stops at the largest
/// second there is.
pub open spec fn expiry(now: u64, ttl: u64) -> u64 {
    if now + ttl > u64::MAX {
        u64::MAX
    } else {
        (now + ttl) as u64
    }
}

/// The second that lies `ttl` seconds after `now`.
pub fn expires_at(now: u64, ttl: u64) -> (at: u64)
    ensures
        at == expiry(now, ttl),
{
    now.saturating_add(ttl)
}

/// The current time in seconds since the Unix epoch.
///
/// The clock decides the reading; whatever it is, the result is the second
/// count of that reading, and so never lies beyond the largest reading there
/// is.
pub fn now() -> (s: u64)
    ensures
        exists|reading: i64| s == #[trigger] seconds_of(reading),
        s <= i64::MAX,
{
    let reading = utc_timestamp();
    let s = seconds(reading);
    proof {
        assert(s == seconds_of(reading));
    }
    s
}

} // verus!
