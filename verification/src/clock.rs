//! Readings of the wall clock and of the local time zone. Everything here is
//! a thin trusted layer over chrono; every decision taken on a reading is
//! made by verified code that receives the reading as an argument.

use chrono::Timelike;
use vstd::prelude::*;

verus! {

/// Relies on chrono's `Local::now`, `DateTime::timestamp_millis` and
/// `Timelike::num_seconds_from_midnight`: one reading of the wall clock, as
/// the Unix time in milliseconds paired with the local number of non-leap
/// seconds since midnight, which chrono documents to lie in 0..=86399.
#[verifier::external_body]
pub(crate) fn local_clock_now() -> (r: (i64, u32))
    ensures
        r.1 < 86400,
{
    let now = chrono::Local::now();
    (now.timestamp_millis(), now.time().num_seconds_from_midnight())
}

/// Relies on chrono's `NaiveDate::and_time` and `and_local_timezone`: the
/// instants, on the local calendar day of this reading and on the day one
/// day later, at which the local wall clock shows the given time of day.
/// `None` when a daylight-saving transition leaves either instant without a
/// single local interpretation, or the time of day is out of range.
#[verifier::external_body]
pub(crate) fn local_update_instants(hour: u8, minute: u8) -> (r: Option<(i64, i64)>) {
    let now = chrono::Local::now();
    let at = chrono::NaiveTime::from_hms_opt(hour as u32, minute as u32, 0)?;
    let today = now.date_naive().and_time(at).and_local_timezone(chrono::Local).single()?;
    let next_day = (now + chrono::Duration::days(1)).date_naive();
    let tomorrow = next_day.and_time(at).and_local_timezone(chrono::Local).single()?;
    Some((today.timestamp_millis(), tomorrow.timestamp_millis()))
}

} // verus!
