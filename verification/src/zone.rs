//! Time zones: what the zone database says about local time.

use vstd::prelude::*;
use crate::error::SuggestError;

verus! {

/// Whether the IANA time-zone database, as compiled into `chrono_tz`, has a
/// zone of exactly this name.
pub uninterp spec fn zone_known(name: Seq<char>) -> bool;

/// The hour that wall clocks in the zone called `name` show at `secs` seconds
/// after the epoch, where the database has such a zone and the calendar
/// reaches that far.
pub uninterp spec fn zone_hour(name: Seq<char>, secs: i64) -> Option<u32>;

/// Looks `name` up with `chrono_tz`'s `Tz::from_str`.
///
/// The contract only gives the answer its name, `zone_known`: the lookup is
/// a search in a table fixed at build time, so it depends on `name` alone.
#[verifier::external_body]
pub(crate) fn lookup_zone(name: &str) -> (known: bool)
    ensures
        known == zone_known(name@),
{
    name.parse::<chrono_tz::Tz>().is_ok()
}

/// Reads the local hour with `chrono`'s `DateTime::with_timezone` and
/// `Timelike::hour`, after `Tz::from_str` and `DateTime::from_timestamp`
/// have turned the two arguments into a zone and a date. Either of them
/// may refuse its argument, which gives `None`.
///
/// The contract only gives the answer its name, `zone_hour`: the zone rules
/// are tables fixed at build time, so it depends on the arguments alone.
#[verifier::external_body]
pub(crate) fn wall_clock_hour(name: &str, secs: i64) -> (hour: Option<u32>)
    ensures
        hour == zone_hour(name@, secs),
{
    let zone: chrono_tz::Tz = name.parse().ok()?;
    let utc = chrono::DateTime::from_timestamp(secs, 0)?;
    Some(chrono::Timelike::hour(&utc.with_timezone(&zone)))
}

/// Accepts `name` where it names a time zone, and reports
/// `InvalidTimezone` where it does not.
pub fn validate_timezone(name: &str) -> (r: Result<(), SuggestError>)
    ensures
        zone_known(name@) ==> r is Ok,
        !zone_known(name@) ==> r == Err::<(), SuggestError>(SuggestError::InvalidTimezone),
{
    if lookup_zone(name) {
        Ok(())
    } else {
        Err(SuggestError::InvalidTimezone)
    }
}

} // verus!
