//! The one place where the library reads the system clock.

use chrono::NaiveDateTime;
use chrono::Utc;
use vstd::prelude::*;

verus! {

/// `chrono::NaiveDateTime`, a calendar date and time of day without a time
/// zone. The library reads every value of it as an instant in UTC and never
/// looks inside one: it only carries the value from the clock into a record.
#[verifier::external_type_specification]
#[verifier::external_body]
pub struct ExNaiveDateTime(NaiveDateTime);

/// The current instant in UTC, as `chrono::Utc::now` reads it from the
/// system clock and `DateTime::naive_utc` hands it out without its offset.
///
/// Nothing is claimed of the instant: two calls may return different values.
/// `Utc::now` panics where the system clock stands before 1970.
#[verifier::external_body]
pub(crate) fn utc_now() -> NaiveDateTime {
    Utc::now().naive_utc()
}

} // verus!
