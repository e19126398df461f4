use gitlab_timelogs::dates::{date_at_offset, local_date, parse_instant, Date, IsoWeek};
use gitlab_timelogs::gitlab_api::types::{Issue, Project, ResponseNode};

fn stamped(spent_at: &str) -> ResponseNode {
    ResponseNode {
        spentAt: spent_at.to_string(),
        timeSpent: 60,
        summary: None,
        issue: Issue { title: "Issue".to_string(), webUrl: "https://example.com/1".to_string(), epic: None },
        project: Project { group: None },
    }
}

fn ymd(year: i32, month: u32, day: u32) -> Date {
    Date::from_ymd(year, month, day).unwrap()
}

#[test]
fn day_numbers_of_civil_dates() {
    assert_eq!(ymd(1, 1, 1).days(), 1);
    assert_eq!(ymd(0, 1, 1).days(), -365);
    assert_eq!(ymd(1970, 1, 1).days(), 719_163);
    assert_eq!(ymd(2024, 6, 3).days(), 739_040);
    assert_eq!(Date::from_days(719_163), Some(ymd(1970, 1, 1)));
}

#[test]
fn dates_that_do_not_exist() {
    assert_eq!(Date::from_ymd(2023, 2, 29), None);
    assert_eq!(Date::from_ymd(2024, 13, 1), None);
    assert_eq!(Date::from_ymd(2024, 0, 1), None);
    assert_eq!(Date::from_ymd(2024, 4, 31), None);
    assert!(Date::from_ymd(2024, 2, 29).is_some());
}

#[test]
fn the_first_and_the_last_date() {
    let first = ymd(-262_143, 1, 1);
    let last = ymd(262_142, 12, 31);
    assert_eq!(first.days(), -95_746_129);
    assert_eq!(last.days(), 95_745_399);
    assert_eq!(Date::from_ymd(-262_144, 12, 31), None);
    assert_eq!(Date::from_ymd(262_143, 1, 1), None);
    assert_eq!(Date::from_days(-95_746_130), None);
    assert_eq!(Date::from_days(95_745_400), None);
    assert_eq!(Date::from_days(-95_746_129), Some(first));
    assert_eq!(Date::from_days(95_745_399), Some(last));
    assert!(first.weekday() < 7);
    assert!(last.weekday() < 7);
    assert!(first.iso_week().week >= 1);
    assert!(last.iso_week().week >= 1);
}

#[test]
fn dates_are_ordered_by_day() {
    assert!(ymd(2024, 6, 3) < ymd(2024, 6, 4));
    assert!(ymd(2023, 12, 31) < ymd(2024, 1, 1));
    assert!(ymd(-1, 12, 31) < ymd(0, 1, 1));
}

#[test]
fn weekdays_count_from_monday() {
    assert_eq!(ymd(2024, 6, 3).weekday(), 0);
    assert_eq!(ymd(1970, 1, 1).weekday(), 3);
    assert_eq!(ymd(2023, 1, 1).weekday(), 6);
    assert_eq!(ymd(1, 1, 1).weekday(), 0);
    assert_eq!(ymd(0, 12, 31).weekday(), 6);
    assert_eq!(ymd(-4, 2, 29).weekday(), ((ymd(-4, 2, 29).days() - 1).rem_euclid(7)) as u32);
    assert!(!ymd(2024, 6, 7).is_weekend());
    assert!(ymd(2024, 6, 8).is_weekend());
    assert!(ymd(2024, 6, 9).is_weekend());
    assert!(!ymd(2024, 6, 10).is_weekend());
}

#[test]
fn iso_week_year_boundary() {
    assert_eq!(ymd(2023, 1, 1).iso_week(), IsoWeek { year: 2022, week: 52 });
    assert_eq!(ymd(2023, 1, 2).iso_week(), IsoWeek { year: 2023, week: 1 });
    assert_eq!(ymd(2024, 12, 30).iso_week(), IsoWeek { year: 2025, week: 1 });
    assert_eq!(ymd(2021, 1, 3).iso_week(), IsoWeek { year: 2020, week: 53 });
    assert_eq!(ymd(2024, 6, 3).iso_week(), IsoWeek { year: 2024, week: 23 });
    assert_eq!(ymd(2024, 6, 10).iso_week(), IsoWeek { year: 2024, week: 24 });
}

#[test]
fn instants_of_timestamps() {
    assert_eq!(parse_instant("1970-01-01T00:00:00Z"), Some(0));
    assert_eq!(parse_instant("1970-01-01T01:00:00+01:00"), Some(0));
    assert_eq!(parse_instant("2024-01-01T23:30:00Z"), Some(1_704_151_800));
    assert_eq!(parse_instant("2024-01-01T23:30:00.750Z"), Some(1_704_151_800));
    assert_eq!(parse_instant("1969-12-31T23:59:59Z"), Some(-1));
    assert_eq!(parse_instant("0000-01-01T00:00:00Z"), Some(-62_167_219_200));
    assert_eq!(parse_instant("9999-12-31T23:59:59Z"), Some(253_402_300_799));
}

#[test]
fn timestamps_that_cannot_be_read() {
    assert_eq!(parse_instant(""), None);
    assert_eq!(parse_instant("yesterday"), None);
    assert_eq!(parse_instant("2024-01-01"), None);
    assert_eq!(parse_instant("2024-13-01T00:00:00Z"), None);
    assert_eq!(stamped("not a time").datetime(), None);
    assert_eq!(stamped("not a time").date_at(0), None);
}

#[test]
fn local_date_under_a_positive_offset() {
    let record = stamped("2024-01-01T23:30:00Z");
    assert_eq!(record.date_at(2 * 3600), Some(ymd(2024, 1, 2)));
    assert_eq!(record.date_at(0), Some(ymd(2024, 1, 1)));
    assert_eq!(record.date_at(1799), Some(ymd(2024, 1, 1)));
    assert_eq!(record.date_at(1800), Some(ymd(2024, 1, 2)));
}

#[test]
fn local_date_under_a_negative_offset() {
    let record = stamped("2024-06-03T00:00:00Z");
    assert_eq!(record.date_at(0), Some(ymd(2024, 6, 3)));
    assert_eq!(record.date_at(-1), Some(ymd(2024, 6, 2)));
    assert_eq!(record.date_at(-5 * 3600), Some(ymd(2024, 6, 2)));
    let midnight_cest = stamped("2024-06-03T00:00:00+02:00");
    assert_eq!(midnight_cest.date_at(0), Some(ymd(2024, 6, 2)));
    assert_eq!(midnight_cest.date_at(2 * 3600), Some(ymd(2024, 6, 3)));
}

#[test]
fn local_date_before_the_epoch() {
    assert_eq!(date_at_offset(-1, 0), Some(ymd(1969, 12, 31)));
    assert_eq!(date_at_offset(-1, 1), Some(ymd(1970, 1, 1)));
    assert_eq!(date_at_offset(-86_400, 0), Some(ymd(1969, 12, 31)));
    assert_eq!(date_at_offset(-86_401, 0), Some(ymd(1969, 12, 30)));
    assert_eq!(date_at_offset(-62_167_219_200, 0), Some(ymd(0, 1, 1)));
    assert_eq!(date_at_offset(-62_167_219_200, -1), Some(ymd(-1, 12, 31)));
    assert_eq!(date_at_offset(253_402_300_799, 1), Some(ymd(10_000, 1, 1)));
}

#[test]
fn offsets_and_instants_out_of_range() {
    assert_eq!(date_at_offset(0, 86_400), None);
    assert_eq!(date_at_offset(0, -86_400), None);
    assert!(date_at_offset(0, 86_399).is_some());
    assert!(date_at_offset(0, -86_399).is_some());
    assert_eq!(date_at_offset(-62_167_305_601, 0), None);
    assert_eq!(date_at_offset(253_402_387_200, 0), None);
    assert!(date_at_offset(-62_167_305_600, -86_399).is_some());
    assert!(date_at_offset(253_402_387_199, 86_399).is_some());
    assert_eq!(local_date(i64::MAX), None);
    assert_eq!(local_date(i64::MIN), None);
}

#[test]
fn local_date_in_the_zone_of_the_process_is_within_a_day_of_utc() {
    let noon: i64 = 1_717_416_000;
    let date = local_date(noon).unwrap();
    let utc = date_at_offset(noon, 0).unwrap();
    assert!((date.days() - utc.days()).abs() <= 1);
    let record = stamped("2024-06-03T12:00:00Z");
    assert_eq!(record.datetime(), Some(date));
}

#[test]
fn every_offset_of_the_first_and_the_last_year_can_be_dated() {
    assert_eq!(parse_instant("0000-01-01T00:00:00+23:59"), Some(-62_167_219_200 - 86_340));
    assert_eq!(parse_instant("9999-12-31T23:59:59-23:59"), Some(253_402_300_799 + 86_340));
    let first = stamped("0000-01-01T00:00:00+23:59");
    assert_eq!(first.date_at(0), Some(ymd(-1, 12, 31)));
    assert_eq!(first.date_at(-86_399), Some(ymd(-1, 12, 30)));
    assert!(first.datetime().is_some());
    let last = stamped("9999-12-31T23:59:59-23:59");
    assert_eq!(last.date_at(0), Some(ymd(10_000, 1, 1)));
    assert_eq!(last.date_at(86_399), Some(ymd(10_000, 1, 2)));
    assert!(last.datetime().is_some());
}
