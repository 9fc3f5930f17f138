//! The creation time of a database.

use crate::error::Corruption;
use vstd::prelude::*;

verus! {

/// Whether the calendar of `chrono` holds the second that lies `secs`
/// seconds after the Unix epoch.
pub uninterp spec fn on_utc_calendar(secs: i64) -> bool;

/// `chrono::DateTime::from_timestamp` with no nanoseconds, asked only
/// whether it yields a time. Trusted: the answer depends on the number of
/// seconds alone.
#[verifier::external_body]
pub(crate) fn is_on_utc_calendar(secs: i64) -> (ok: bool)
    ensures
        ok == on_utc_calendar(secs),
{
    chrono::DateTime::from_timestamp(secs, 0).is_some()
}

/// The creation time that the header field `raw` stands for, in seconds
/// since the Unix epoch, given whether the calendar holds it. The field is
/// corrupt where it exceeds the signed range or the calendar.
pub fn timestamp_from(raw: u64, on_calendar: bool) -> (r: Result<i64, Corruption>)
    ensures
        r == (if raw <= i64::MAX && on_calendar {
            Ok(raw as i64)
        } else {
            Err(Corruption::CreatedAt)
        }),
{
    if raw <= i64::MAX as u64 && on_calendar {
        Ok(raw as i64)
    } else {
        Err(Corruption::CreatedAt)
    }
}

} // verus!
