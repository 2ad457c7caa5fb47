use vstd::prelude::*;

use crate::config::MAX_TIMESTAMP_MS;

verus! {

/// Relies on `chrono::Utc::now`: reads the wall clock as milliseconds since
/// the Unix epoch.  Nothing is assumed of the value; callers clamp it.
#[verifier::external_body]
pub(crate) fn now_millis() -> i64 {
    chrono::Utc::now().timestamp_millis()
}

/// Clamps a raw clock reading into the service's timestamp range.
pub fn clamp_timestamp(t: i64) -> (r: u64)
    ensures
        r <= MAX_TIMESTAMP_MS,
        0 <= t <= MAX_TIMESTAMP_MS ==> r == t,
{
    if t < 0 {
        0
    } else if t > MAX_TIMESTAMP_MS as i64 {
        MAX_TIMESTAMP_MS
    } else {
        t as u64
    }
}

} // verus!
