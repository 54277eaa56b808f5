use vstd::prelude::*;
use crate::types::Weekday;
use chrono::Datelike;

verus! {

/// Calls `chrono::Local::now()` and takes its weekday. The result depends
/// on the clock and the machine's time zone, so nothing is claimed of it.
#[verifier::external_body]
pub(crate) fn today_weekday() -> (w: Weekday) {
    match chrono::Local::now().weekday() {
        chrono::Weekday::Mon => Weekday::Mon,
        chrono::Weekday::Tue => Weekday::Tue,
        chrono::Weekday::Wed => Weekday::Wed,
        chrono::Weekday::Thu => Weekday::Thu,
        chrono::Weekday::Fri => Weekday::Fri,
        chrono::Weekday::Sat => Weekday::Sat,
        chrono::Weekday::Sun => Weekday::Sun,
    }
}

/// Calls `chrono::Local::now()` and takes the number of days of its date
/// since the first of January of year 1. The result depends on the clock
/// and the machine's time zone, so nothing is claimed of it.
#[verifier::external_body]
pub(crate) fn today_day_number() -> (d: i32) {
    chrono::Local::now().date_naive().num_days_from_ce()
}

} // verus!
