//! Calendar dates and ISO weeks as plain numbers, and the calls into
//! `chrono` that produce them.
//!
//! A date is the number of days in the proleptic Gregorian calendar, with
//! January 1 of the year 1 as day 1. The local date of an instant is
//! computed here; parsing, the time zone of the process, and the calendar
//! (day numbers of civil dates, weekdays, ISO weeks) come from `chrono`.

use chrono::{DateTime, Datelike, Local, NaiveDate, TimeZone};
use vstd::arithmetic::div_mod::lemma_fundamental_div_mod_converse;
use vstd::prelude::*;

verus! {

/// The day number of the first date that `chrono` can hold (January 1 of
/// the year -262143).
pub const MIN_DAYS: i32 = -95_746_129;

/// The day number of the last date that `chrono` can hold (December 31 of
/// the year 262142).
pub const MAX_DAYS: i32 = 95_745_399;

/// The day number of January 1, 1970.
pub const EPOCH_DAYS: i32 = 719_163;

/// The day number of January 1 of the year 0.
pub const FIRST_CIVIL_DAY: i32 = -365;

/// The day number of December 31 of the year 9999.
pub const LAST_CIVIL_DAY: i32 = 3_652_059;

pub const SECONDS_PER_DAY: i64 = 86_400;

/// One day before `0000-01-01T00:00:00Z`, in seconds since the epoch.
pub const MIN_INSTANT: i64 = -62_167_305_600;

/// One day after `9999-12-31T23:59:59Z`, in seconds since the epoch.
pub const MAX_INSTANT: i64 = 253_402_387_199;

/// The whole second, counted from the epoch in UTC, of the instant that
/// `chrono` reads from an RFC 3339 timestamp; `None` where it rejects the
/// text.
pub uninterp spec fn rfc3339_seconds(text: Seq<char>) -> Option<int>;

/// The day number of the civil date `year-month-day`, as `chrono` counts it;
/// `None` where there is no such date or `chrono` cannot hold it.
pub uninterp spec fn ymd_days(year: int, month: int, day: int) -> Option<int>;

/// The ISO 8601 week-year and week number of the date with the given day
/// number, as `chrono` computes them.
pub uninterp spec fn iso_week_of(days: int) -> (int, int);

/// The instants that the library dates: every one that an RFC 3339
/// timestamp, with its four-digit year and its offset, can denote.
pub open spec fn valid_instant(instant: int) -> bool {
    MIN_INSTANT <= instant <= MAX_INSTANT
}

/// The offsets from UTC, in seconds, that a time zone can have: less than a
/// day either way.
pub open spec fn valid_offset(offset: int) -> bool {
    -SECONDS_PER_DAY < offset < SECONDS_PER_DAY
}

/// The instant of a timestamp, where it has one that the library dates.
pub open spec fn instant_of(text: Seq<char>) -> Option<int> {
    match rfc3339_seconds(text) {
        Some(t) => if valid_instant(t) {
            Some(t)
        } else {
            None
        },
        None => None,
    }
}

/// The day number of the calendar date on which `instant` falls for an
/// observer whose clock is `offset` seconds ahead of UTC.
pub open spec fn local_day(instant: int, offset: int) -> int {
    (instant + offset) / (SECONDS_PER_DAY as int) + EPOCH_DAYS
}

/// A later offset never gives an earlier date, and no offset moves the
/// date by more than one day from the date in UTC.
pub proof fn lemma_local_day_near_utc(instant: int, offset: int)
    requires
        valid_offset(offset),
    ensures
        local_day(instant, 0) - 1 <= local_day(instant, offset) <= local_day(instant, 0) + 1,
        offset >= 0 ==> local_day(instant, 0) <= local_day(instant, offset),
        offset <= 0 ==> local_day(instant, offset) <= local_day(instant, 0),
{
    let d: int = SECONDS_PER_DAY as int;
    vstd::arithmetic::div_mod::lemma_div_is_ordered(instant - d, instant + offset, d);
    vstd::arithmetic::div_mod::lemma_div_is_ordered(instant + offset, instant + d, d);
    if offset >= 0 {
        vstd::arithmetic::div_mod::lemma_div_is_ordered(instant, instant + offset, d);
    }
    if offset <= 0 {
        vstd::arithmetic::div_mod::lemma_div_is_ordered(instant + offset, instant, d);
    }
    vstd::arithmetic::div_mod::lemma_div_plus_one(instant, d);
    vstd::arithmetic::div_mod::lemma_div_minus_one(instant, d);
}

/// A calendar date.
#[derive(Clone, Copy, Debug, PartialEq, Eq, PartialOrd, Ord, Hash)]
pub struct Date {
    days: i32,
}

/// An ISO 8601 week: the week-year, which near New Year can differ from the
/// calendar year, and the number of the week in it.
#[derive(Clone, Copy, Debug, PartialEq, Eq, PartialOrd, Ord, Hash)]
pub struct IsoWeek {
    pub year: i32,
    pub week: u32,
}

/// Calls `DateTime::parse_from_rfc3339` and takes the UTC second of the
/// result with `DateTime::timestamp`. Trusted: the outcome is the named
/// function of the text, `None` where the parser returns an error.
#[verifier::external_body]
fn parse_rfc3339_seconds(text: &str) -> (r: Option<i64>)
    ensures
        match r {
            Some(t) => rfc3339_seconds(text@) == Some(t as int),
            None => rfc3339_seconds(text@).is_none(),
        },
{
    match DateTime::parse_from_rfc3339(text) {
        Ok(stamp) => Some(stamp.timestamp()),
        Err(_) => None,
    }
}

/// Asks `chrono::Local`, through `TimeZone::timestamp_opt`, for the offset
/// from UTC that the time zone of this process has at the given instant.
/// Trusted: the instants admitted are in the range for which `chrono` always
/// yields a single result, and a `FixedOffset` is less than a day. Which
/// offset comes back depends on the machine, so nothing more is stated.
#[verifier::external_body]
fn local_offset_at(instant: i64) -> (r: i32)
    requires
        valid_instant(instant as int),
    ensures
        valid_offset(r as int),
{
    Local.timestamp_opt(instant, 0).unwrap().offset().local_minus_utc()
}

/// Calls `NaiveDate::from_ymd_opt` and counts the days of the result with
/// `Datelike::num_days_from_ce`. Trusted: the outcome is the named function
/// of the three numbers, and a date that `chrono` holds lies between its
/// first and its last date.
#[verifier::external_body]
fn days_of_ymd(year: i32, month: u32, day: u32) -> (r: Option<i32>)
    ensures
        match r {
            Some(n) => ymd_days(year as int, month as int, day as int) == Some(n as int)
                && MIN_DAYS <= n <= MAX_DAYS,
            None => ymd_days(year as int, month as int, day as int).is_none(),
        },
{
    match NaiveDate::from_ymd_opt(year, month, day) {
        Some(date) => Some(date.num_days_from_ce()),
        None => None,
    }
}

/// Calls `NaiveDate::iso_week` on the date with the given day number, made
/// by `NaiveDate::from_num_days_from_ce_opt`. Trusted: the pair is the named
/// function of the day number.
#[verifier::external_body]
fn iso_week_of_days(days: i32) -> (r: (i32, u32))
    requires
        MIN_DAYS <= days <= MAX_DAYS,
    ensures
        (r.0 as int, r.1 as int) == iso_week_of(days as int),
{
    let week = NaiveDate::from_num_days_from_ce_opt(days).unwrap().iso_week();
    (week.year(), week.week())
}

/// Calls `NaiveDate::weekday` on the date with the given day number and
/// numbers the result from Monday with `Weekday::num_days_from_monday`.
/// Trusted: day 1 is a Monday and the weekdays repeat every seven days.
#[verifier::external_body]
fn weekday_of_days(days: i32) -> (r: u32)
    requires
        MIN_DAYS <= days <= MAX_DAYS,
    ensures
        r as int == (days as int - 1) % 7,
{
    NaiveDate::from_num_days_from_ce_opt(days).unwrap().weekday().num_days_from_monday()
}

/// Reads the clock with `Local::now` and counts the days of its local date
/// with `Datelike::num_days_from_ce`. Trusted: the clock of `chrono` does
/// not go back beyond the epoch and an offset is less than a day, so the
/// local date is not before the eve of the epoch; and a date that `chrono`
/// holds is not after its last date. Which date comes back depends on the
/// clock and the time zone of the machine.
#[verifier::external_body]
fn current_days() -> (r: i32)
    ensures
        EPOCH_DAYS - 1 <= r <= MAX_DAYS,
{
    Local::now().naive_local().date().num_days_from_ce()
}

impl Date {
    #[verifier::type_invariant]
    spec fn in_range(self) -> bool {
        MIN_DAYS <= self.days <= MAX_DAYS
    }

    /// The day number of the date.
    pub closed spec fn spec_days(self) -> int {
        self.days as int
    }

    /// The ISO week in which the date lies.
    pub open spec fn spec_iso_week(self) -> (int, int) {
        iso_week_of(self.spec_days())
    }

    /// The weekday of the date, counted from Monday as 0.
    pub open spec fn spec_weekday(self) -> int {
        (self.spec_days() - 1) % 7
    }

    pub fn days(&self) -> (r: i32)
        ensures
            r as int == self.spec_days(),
            MIN_DAYS <= r <= MAX_DAYS,
    {
        proof {
            use_type_invariant(self);
        }
        self.days
    }

    /// The date with the given day number, where there is one.
    pub fn from_days(days: i32) -> (r: Option<Date>)
        ensures
            r.is_some() == (MIN_DAYS <= days <= MAX_DAYS),
            r matches Some(d) ==> d.spec_days() == days as int,
    {
        if MIN_DAYS <= days && days <= MAX_DAYS {
            Some(Date { days })
        } else {
            None
        }
    }

    /// The civil date `year-month-day`, where there is one.
    pub fn from_ymd(year: i32, month: u32, day: u32) -> (r: Option<Date>)
        ensures
            match r {
                Some(d) => ymd_days(year as int, month as int, day as int) == Some(d.spec_days()),
                None => ymd_days(year as int, month as int, day as int).is_none(),
            },
    {
        match days_of_ymd(year, month, day) {
            Some(days) => Some(Date { days }),
            None => None,
        }
    }

    pub fn iso_week(&self) -> (r: IsoWeek)
        ensures
            (r.year as int, r.week as int) == self.spec_iso_week(),
    {
        proof {
            use_type_invariant(self);
        }
        let (year, week) = iso_week_of_days(self.days);
        IsoWeek { year, week }
    }

    pub fn weekday(&self) -> (r: u32)
        ensures
            r as int == self.spec_weekday(),
            r < 7,
    {
        proof {
            use_type_invariant(self);
        }
        weekday_of_days(self.days)
    }

    /// Saturday or Sunday.
    pub fn is_weekend(&self) -> (r: bool)
        ensures
            r == (self.spec_weekday() >= 5),
    {
        self.weekday() >= 5
    }
}

/// Today's date in the time zone of this process: the local date, at the
/// offset that the zone has now, of the instant that the clock shows. The
/// clock does not show an instant before the epoch.
pub fn current_date() -> (r: Date)
    ensures
        exists|instant: int, offset: int|
            0 <= instant && valid_offset(offset) && r.spec_days() == #[trigger] local_day(
                instant,
                offset,
            ),
{
    let days = current_days();
    proof {
        if days >= EPOCH_DAYS {
            let whole = days as int - EPOCH_DAYS;
            vstd::arithmetic::div_mod::lemma_div_multiples_vanish(whole, SECONDS_PER_DAY as int);
            assert(local_day(whole * SECONDS_PER_DAY, 0) == days as int);
        } else {
            assert(local_day(0, -1) == days as int);
        }
    }
    Date { days }
}

/// Reads an RFC 3339 timestamp and returns its instant, in whole seconds
/// since the epoch.
pub fn parse_instant(text: &str) -> (r: Option<i64>)
    ensures
        match r {
            Some(t) => instant_of(text@) == Some(t as int),
            None => instant_of(text@).is_none(),
        },
{
    match parse_rfc3339_seconds(text) {
        Some(t) => if MIN_INSTANT <= t && t <= MAX_INSTANT {
            Some(t)
        } else {
            None
        },
        None => None,
    }
}

/// The calendar date on which `instant` falls for an observer whose clock
/// is `offset` seconds ahead of UTC.
pub fn date_at_offset(instant: i64, offset: i32) -> (r: Option<Date>)
    ensures
        r.is_some() == (valid_instant(instant as int) && valid_offset(offset as int)),
        r matches Some(d) ==> d.spec_days() == local_day(instant as int, offset as int),
{
    if instant < MIN_INSTANT || instant > MAX_INSTANT || offset <= -86_400 || offset >= 86_400 {
        return None;
    }
    // Shift by 720000 whole days so that the division is one of naturals.
    let local: i64 = instant + offset as i64;
    let shifted: u64 = (local + 62_208_000_000) as u64;
    let whole: u64 = shifted / 86_400;
    let rest: u64 = shifted % 86_400;
    proof {
        let q = whole as int - 720_000;
        assert(local as int == q * 86_400 + rest as int) by (nonlinear_arith)
            requires
                shifted as int == local as int + 62_208_000_000,
                shifted as int == whole as int * 86_400 + rest as int,
                q == whole as int - 720_000,
        ;
        lemma_fundamental_div_mod_converse(local as int, 86_400, q, rest as int);
    }
    let days: i32 = (whole as i64 - 720_000 + 719_163) as i32;
    Some(Date { days })
}

/// The calendar date on which `instant` falls in the time zone of this
/// process. The time zone is the machine's, so the offset is whatever it
/// reports for that instant.
pub fn local_date(instant: i64) -> (r: Option<Date>)
    ensures
        r.is_some() == valid_instant(instant as int),
        r matches Some(d) ==> exists|offset: int|
            valid_offset(offset) && d.spec_days() == #[trigger] local_day(instant as int, offset),
{
    if instant < MIN_INSTANT || instant > MAX_INSTANT {
        return None;
    }
    let offset = local_offset_at(instant);
    let r = date_at_offset(instant, offset);
    proof {
        assert(local_day(instant as int, offset as int) == r.unwrap().spec_days());
    }
    r
}

} // verus!
