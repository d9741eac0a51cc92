use chrono::Datelike;
use vstd::prelude::*;

verus! {

/// A calendar date in the local frame of a commit's own time zone.
#[derive(Clone, Copy, Debug, PartialEq, Eq, Structural)]
pub struct CalendarDate {
    pub year: i32,
    pub month: u32,
    pub day: u32,
}

/// Timestamps up to this many seconds from the Unix epoch, either way, have
/// a calendar date.
pub const MAX_SECONDS: i64 = 8_000_000_000_000;

/// The local `(year, month, day)` of a Unix timestamp seen at a fixed offset
/// east of UTC, or `None` when either is out of range.
pub uninterp spec fn local_date_of(seconds: i64, offset_seconds: i32) -> Option<(i32, u32, u32)>;

/// Relies on chrono: `DateTime::from_timestamp` (None when the seconds are out
/// of range), `FixedOffset::east_opt` (None unless the offset lies strictly
/// within one day), `NaiveDateTime::checked_add_offset` (None when the local
/// time leaves the representable range) and `Datelike`'s `month` (1 to 12)
/// and `day` (1 to 31). chrono's dates span the years -262143 to 262142,
/// more than 8 * 10^12 seconds on either side of the epoch, so a timestamp
/// within that bound and an offset within one day always have a local date.
#[verifier::external_body]
fn local_date(seconds: i64, offset_seconds: i32) -> (r: Option<(i32, u32, u32)>)
    ensures
        r == local_date_of(seconds, offset_seconds),
        !(-86_400 < offset_seconds < 86_400) ==> r is None,
        -MAX_SECONDS <= seconds <= MAX_SECONDS && -86_400 < offset_seconds < 86_400 ==> r is Some,
        r matches Some((_, m, d)) ==> 1 <= m <= 12 && 1 <= d <= 31,
{
    let utc = chrono::DateTime::from_timestamp(seconds, 0)?;
    let offset = chrono::FixedOffset::east_opt(offset_seconds)?;
    let local = utc.naive_utc().checked_add_offset(offset)?;
    Some((local.year(), local.month(), local.day()))
}

/// The local calendar date of a commit made at `seconds` since the Unix epoch,
/// recorded with a time zone `offset_minutes` east of UTC.
pub open spec fn commit_date_of(seconds: i64, offset_minutes: i32) -> Option<CalendarDate> {
    let offset = offset_minutes * 60;
    if i32::MIN <= offset <= i32::MAX {
        match local_date_of(seconds, offset as i32) {
            Some((y, m, d)) => Some(CalendarDate { year: y, month: m, day: d }),
            None => None,
        }
    } else {
        None
    }
}

/// Converts a commit time and its recorded offset into the commit's local
/// calendar date.
pub fn commit_date(seconds: i64, offset_minutes: i32) -> (r: Option<CalendarDate>)
    ensures
        r == commit_date_of(seconds, offset_minutes),
        !(-1440 < offset_minutes < 1440) ==> r is None,
        -MAX_SECONDS <= seconds <= MAX_SECONDS && -1440 < offset_minutes < 1440 ==> r is Some,
        r matches Some(d) ==> 1 <= d.month <= 12 && 1 <= d.day <= 31,
{
    match offset_minutes.checked_mul(60) {
        Some(offset) => match local_date(seconds, offset) {
            Some((year, month, day)) => Some(CalendarDate { year, month, day }),
            None => None,
        },
        None => None,
    }
}

} // verus!
