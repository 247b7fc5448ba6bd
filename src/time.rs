//! Reading the site's timestamps, which are Seoul wall-clock times.

use vstd::prelude::*;
use crate::model::Timestamp;

verus! {

/// The wall-clock time that `s` spells in the strftime-style format `fmt`,
/// as seconds from 1970-01-01 00:00:00 on that same clock.
pub uninterp spec fn naive_time_of(s: Seq<char>, fmt: Seq<char>) -> Option<i64>;

/// The UTC instant of a Seoul wall-clock time given as seconds from
/// 1970-01-01 00:00:00 on that clock, if the time occurs exactly once.
pub uninterp spec fn seoul_instant_of(local: i64) -> Option<i64>;

/// Relies on chrono's `NaiveDateTime::parse_from_str`: the time `s` spells
/// in `fmt`, which depends on the two texts alone.
#[verifier::external_body]
fn parse_naive(s: &str, fmt: &str) -> (r: Option<i64>)
    ensures
        r == naive_time_of(s@, fmt@),
{
    chrono::NaiveDateTime::parse_from_str(s, fmt).ok().map(|t| t.and_utc().timestamp())
}

/// Relies on chrono-tz's `Asia::Seoul` through chrono's
/// `TimeZone::from_local_datetime`: the UTC instant of a Seoul wall-clock
/// time, `None` where the zone skips or repeats it.
#[verifier::external_body]
fn seoul_to_utc(local: i64) -> (r: Option<i64>)
    ensures
        r == seoul_instant_of(local),
{
    let naive = chrono::DateTime::from_timestamp(local, 0)?.naive_utc();
    chrono::TimeZone::from_local_datetime(&chrono_tz::Asia::Seoul, &naive).single().map(
        |t| t.timestamp(),
    )
}

/// The full form of a comment time.
pub const DOTTED_FORMAT: &'static str = "%Y.%m.%d %H:%M:%S";

/// The form listing rows use.
pub const DASHED_FORMAT: &'static str = "%Y-%m-%d %H:%M:%S";

/// The instant of a Seoul wall-clock time, if one.
pub open spec fn seoul_time(local: Option<i64>) -> Option<Timestamp> {
    match local {
        Some(t) => seoul_instant_of(t),
        None => None,
    }
}

/// When a Seoul time written `YYYY-MM-DD HH:MM:SS` happened.
pub open spec fn dashed_time_of(s: Seq<char>) -> Option<Timestamp> {
    seoul_time(naive_time_of(s, DASHED_FORMAT@))
}

/// The wall-clock time of a comment stamp: `YYYY.MM.DD HH:MM:SS`, else
/// `YYYY-MM-DD HH:MM:SS`, else `MM.DD HH:MM:SS` in the year given.
pub open spec fn comment_wall_time(s: Seq<char>, year: u32) -> Option<i64> {
    let full = naive_time_of(s, DOTTED_FORMAT@);
    let dashed = naive_time_of(s, DASHED_FORMAT@);
    if full is Some {
        full
    } else if dashed is Some {
        dashed
    } else {
        naive_time_of(crate::text::decimal_of(year as nat) + "."@ + s, DOTTED_FORMAT@)
    }
}

/// When a comment stamped `s` was written, reading a stamp without a year
/// in `year` (Seoul's current year).
pub open spec fn comment_time_of(s: Seq<char>, year: u32) -> Option<Timestamp> {
    seoul_time(comment_wall_time(s, year))
}

/// When a listing row's Seoul time `s` (`YYYY-MM-DD HH:MM:SS`) happened.
pub fn parse_dashed_time(s: &str) -> (r: Option<Timestamp>)
    ensures
        r == dashed_time_of(s@),
{
    match parse_naive(s, DASHED_FORMAT) {
        Some(t) => seoul_to_utc(t),
        None => None,
    }
}

/// When a comment stamped `s` was written; a stamp without a year is read
/// in `year`.
pub fn parse_comment_time(s: &str, year: u32) -> (r: Option<Timestamp>)
    ensures
        r == comment_time_of(s@, year),
{
    let local = match parse_naive(s, DOTTED_FORMAT) {
        Some(t) => Some(t),
        None => match parse_naive(s, DASHED_FORMAT) {
            Some(t) => Some(t),
            None => {
                let mut prefixed = crate::text::decimal(year as u64);
                prefixed.append(".");
                prefixed.append(s);
                parse_naive(prefixed.as_str(), DOTTED_FORMAT)
            },
        },
    };
    match local {
        Some(t) => seoul_to_utc(t),
        None => None,
    }
}

} // verus!
