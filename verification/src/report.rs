//! What the report derives from the records besides the views: hours and
//! minutes of a duration, and the sanity checks on an entry and on a day.

use crate::dates::{Date, IsoWeek};
use crate::gitlab_api::types::{magnitude, ResponseNode};
use crate::numerals::{decimal, decimal_text};
use vstd::prelude::*;
use vstd::string::*;

verus! {

/// An entry shorter than this many minutes is questioned.
pub const MIN_MINUTES_THRESHOLD: u64 = 15;

/// A day with more than this many hours is questioned.
pub const MAX_HOURS_THRESHOLD: u64 = 10;

/// What is to be remarked on one entry.
#[derive(Clone, Copy, Debug, PartialEq, Eq)]
pub struct EntryWarnings {
    /// The time was logged as negative (an entry of zero seconds counts as
    /// not positive, too).
    pub not_positive: bool,
    /// Less than a quarter of an hour was logged.
    pub too_short: bool,
}

/// What is to be remarked on one day.
#[derive(Clone, Copy, Debug, PartialEq, Eq)]
pub struct DayWarnings {
    /// More than ten hours were logged.
    pub too_long: bool,
    /// The day is a Saturday or a Sunday.
    pub weekend: bool,
}

/// Splits a duration in seconds into whole hours and the whole minutes
/// that remain.
pub fn duration_to_hhmm(dur: u64) -> (r: (u64, u64))
    ensures
        r.0 == dur / 3600,
        r.1 == (dur % 3600) / 60,
        r.1 < 60,
{
    let hours: u64 = dur / 60 / 60;
    assert(hours == dur / 3600) by (nonlinear_arith)
        requires
            hours == dur / 60 / 60,
    ;
    assert(hours * 3600 <= dur && dur - hours * 3600 == dur % 3600) by (nonlinear_arith)
        requires
            hours == dur / 3600,
    ;
    let remaining_secs: u64 = dur - (hours * 60 * 60);
    let minutes: u64 = remaining_secs / 60;
    (hours, minutes)
}

/// A number in decimal, with `fill` before it where it has one digit only.
pub open spec fn two_wide(fill: char, n: nat) -> Seq<char> {
    if n < 10 {
        seq![fill] + decimal(n)
    } else {
        decimal(n)
    }
}

/// A duration as hours and minutes, such as ` 3h 07m`.
pub open spec fn duration_label(dur: nat) -> Seq<char> {
    two_wide(' ', dur / 3600) + "h "@ + two_wide('0', (dur % 3600) / 60) + "m"@
}

/// An integer in decimal, with a minus sign where it is negative.
pub open spec fn signed_decimal(n: int) -> Seq<char> {
    if n < 0 {
        "-"@ + decimal((-n) as nat)
    } else {
        decimal(n as nat)
    }
}

/// The heading of a week, such as `WEEK 2024-W05`.
pub open spec fn week_label(year: int, week: nat) -> Seq<char> {
    "WEEK "@ + signed_decimal(year) + "-W"@ + two_wide('0', week)
}

/// Writes a duration in seconds as hours and minutes.
pub fn duration_text(dur: u64) -> (r: String)
    ensures
        r@ == duration_label(dur as nat),
{
    let (hours, minutes) = duration_to_hhmm(dur);
    proof {
        reveal_strlit(" ");
        reveal_strlit("0");
    }
    let mut r = if hours < 10 {
        " ".to_owned()
    } else {
        String::new()
    };
    r.append(decimal_text(hours).as_str());
    r.append("h ");
    if minutes < 10 {
        r.append("0");
    }
    r.append(decimal_text(minutes).as_str());
    r.append("m");
    proof {
        assert(r@ =~= duration_label(dur as nat));
    }
    r
}

/// Writes the heading of a week.
pub fn week_title(week: IsoWeek) -> (r: String)
    ensures
        r@ == week_label(week.year as int, week.week as nat),
{
    proof {
        reveal_strlit("0");
    }
    let mut r = "WEEK ".to_owned();
    if week.year < 0 {
        r.append("-");
        r.append(decimal_text((-(week.year as i64)) as u64).as_str());
    } else {
        r.append(decimal_text(week.year as u64).as_str());
    }
    r.append("-W");
    if week.week < 10 {
        r.append("0");
    }
    r.append(decimal_text(week.week as u64).as_str());
    proof {
        assert(r@ =~= week_label(week.year as int, week.week as nat));
    }
    r
}

/// The sanity checks on one entry.
pub fn entry_warnings(log: &ResponseNode) -> (r: EntryWarnings)
    ensures
        r.not_positive == (log.timeSpent <= 0),
        r.too_short == (magnitude(log.timeSpent) / 60 < MIN_MINUTES_THRESHOLD),
{
    let (positive, seconds) = log.timeSpent();
    EntryWarnings { not_positive: !positive, too_short: seconds / 60 < MIN_MINUTES_THRESHOLD }
}

/// The sanity checks on one day, on which `total` seconds were logged.
pub fn day_warnings(day: Date, total: u64) -> (r: DayWarnings)
    ensures
        r.too_long == (total > MAX_HOURS_THRESHOLD * 3600),
        r.weekend == (day.spec_weekday() >= 5),
{
    DayWarnings { too_long: total > MAX_HOURS_THRESHOLD * 60 * 60, weekend: day.is_weekend() }
}

} // verus!
