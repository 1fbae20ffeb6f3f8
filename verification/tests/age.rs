use branch_picker::age::{humanize, Age};
use branch_picker::decimal::{magnitude_of, push_decimal, push_digits};
use branch_picker::time::{ClockReading, LocalTime};

fn told(delta: i64) -> String {
    let now = ClockReading::new(1_700_000_000, 0).unwrap();
    let then = LocalTime::new(1_700_000_000 - delta).unwrap();
    humanize(&now, &then)
}

#[test]
fn no_time_at_all_is_less_than_a_minute() {
    assert_eq!(told(0), "less than 1 minute");
}

#[test]
fn under_sixty_seconds_is_less_than_a_minute() {
    assert_eq!(told(1), "less than 1 minute");
    assert_eq!(told(59), "less than 1 minute");
}

#[test]
fn one_minute_is_told_in_the_plural() {
    assert_eq!(told(60), "1 minutes");
    assert_eq!(told(119), "1 minutes");
}

#[test]
fn a_hundred_minutes_are_still_minutes() {
    assert_eq!(told(100 * 60), "100 minutes");
    assert_eq!(told(100 * 60 + 59), "100 minutes");
}

#[test]
fn hours_begin_above_a_hundred_minutes() {
    assert_eq!(told(101 * 60), "1 hours");
    assert_eq!(told(119 * 60 + 59), "1 hours");
    assert_eq!(told(120 * 60), "2 hours");
}

#[test]
fn hours_are_cut_not_rounded() {
    assert_eq!(told(23 * 3_600 + 59 * 60 + 59), "23 hours");
}

#[test]
fn days_begin_at_a_whole_day() {
    assert_eq!(told(86_400), "1 days");
    assert_eq!(told(2 * 86_400 - 1), "1 days");
    assert_eq!(told(6 * 86_400 + 86_399), "6 days");
}

#[test]
fn weeks_begin_at_a_whole_week() {
    assert_eq!(told(7 * 86_400), "1 weeks");
    assert_eq!(told(14 * 86_400 - 1), "1 weeks");
    assert_eq!(told(3 * 604_800), "3 weeks");
    assert_eq!(told(520 * 604_800 + 5), "520 weeks");
}

#[test]
fn a_commit_ahead_of_the_clock_has_a_negative_age() {
    assert_eq!(told(-59), "less than 1 minute");
    assert_eq!(told(-60), "-1 minutes");
    assert_eq!(told(-5 * 60), "-5 minutes");
    assert_eq!(told(-101 * 60), "-101 minutes");
    assert_eq!(told(-23 * 3_600), "-1380 minutes");
    assert_eq!(told(-86_400), "-1 days");
    assert_eq!(told(-3 * 86_400), "-3 days");
    assert_eq!(told(-3 * 604_800), "-21 days");
}

#[test]
fn same_times_give_the_same_words() {
    let now = ClockReading::new(1_700_000_000, 0).unwrap();
    let then = LocalTime::new(1_699_900_000).unwrap();
    assert_eq!(humanize(&now, &then), humanize(&now, &then));
    assert_eq!(humanize(&now, &then), "1 days");
}

#[test]
fn age_is_told_in_the_unit_of_its_bucket() {
    assert_eq!(Age::of_seconds(0), Age::UnderAMinute);
    assert_eq!(Age::of_seconds(6_000), Age::Minutes(100));
    assert_eq!(Age::of_seconds(6_060), Age::Hours(1));
    assert_eq!(Age::of_seconds(86_399), Age::Hours(23));
    assert_eq!(Age::of_seconds(86_400), Age::Days(1));
    assert_eq!(Age::of_seconds(604_799), Age::Days(6));
    assert_eq!(Age::of_seconds(604_800), Age::Weeks(1));
    assert_eq!(Age::of_seconds(-604_800), Age::Days(-7));
    assert_eq!(Age::of_seconds(i64::MAX), Age::Weeks(i64::MAX / 604_800));
    assert_eq!(Age::of_seconds(i64::MIN), Age::Days(i64::MIN / 86_400));
}

#[test]
fn age_between_two_times() {
    let now = ClockReading::new(10_000, 0).unwrap();
    let then = LocalTime::new(10_000 - 600).unwrap();
    assert_eq!(Age::between(&now, &then), Age::Minutes(10));
    let ahead = LocalTime::new(10_000 + 600).unwrap();
    assert_eq!(Age::between(&now, &ahead), Age::Minutes(-10));
}

#[test]
fn age_in_words() {
    assert_eq!(Age::UnderAMinute.text(), "less than 1 minute");
    assert_eq!(Age::Minutes(42).text(), "42 minutes");
    assert_eq!(Age::Hours(3).text(), "3 hours");
    assert_eq!(Age::Days(-2).text(), "-2 days");
    assert_eq!(Age::Weeks(1000).text(), "1000 weeks");
}

#[test]
fn buckets_are_those_of_chrono_durations() {
    let mut delta: i64 = -1_300_000;
    while delta <= 1_300_000 {
        let span = chrono::TimeDelta::seconds(delta);
        let expected = if span.num_minutes() == 0 {
            "less than 1 minute".to_string()
        } else if span.num_days() == 0 {
            if span.num_minutes() > 100 {
                format!("{} hours", span.num_hours())
            } else {
                format!("{} minutes", span.num_minutes())
            }
        } else if span.num_weeks() > 0 {
            format!("{} weeks", span.num_weeks())
        } else {
            format!("{} days", span.num_days())
        };
        assert_eq!(told(delta), expected);
        delta += 997;
    }
}

#[test]
fn part_of_a_second_is_dropped_towards_zero() {
    let commit = LocalTime::new(1_000).unwrap();
    // the clock is ahead of the commit: the part of a second does not count
    let late = ClockReading::new(1_059, 999_999_999).unwrap();
    assert_eq!(late.elapsed_since(&commit), 59);
    assert_eq!(humanize(&late, &commit), "less than 1 minute");
    let later = ClockReading::new(1_060, 1).unwrap();
    assert_eq!(later.elapsed_since(&commit), 60);
    assert_eq!(humanize(&later, &commit), "1 minutes");
    // the clock is behind the commit: the part of a second brings it nearer
    let early = ClockReading::new(940, 0).unwrap();
    assert_eq!(early.elapsed_since(&commit), -60);
    assert_eq!(humanize(&early, &commit), "-1 minutes");
    let nearer = ClockReading::new(940, 1).unwrap();
    assert_eq!(nearer.elapsed_since(&commit), -59);
    assert_eq!(humanize(&nearer, &commit), "less than 1 minute");
    let just_before = ClockReading::new(999, 500_000_000).unwrap();
    assert_eq!(just_before.elapsed_since(&commit), 0);
    let on_it = ClockReading::new(1_000, 500_000_000).unwrap();
    assert_eq!(on_it.elapsed_since(&commit), 0);
}

#[test]
fn elapsed_seconds_are_those_of_chrono() {
    let commit_seconds: i64 = 1_700_000_000;
    let commit = LocalTime::new(commit_seconds).unwrap();
    let then = chrono::DateTime::from_timestamp(commit_seconds, 0).unwrap().naive_utc();
    for offset in [-200_000i64, -86_401, -86_400, -61, -60, -2, -1, 0, 1, 59, 60, 86_400] {
        for nanos in [0u32, 1, 500_000_000, 999_999_999] {
            let seconds = commit_seconds + offset;
            let now = chrono::DateTime::from_timestamp(seconds, nanos).unwrap().naive_utc();
            let expected = now.signed_duration_since(then).num_seconds();
            let reading = ClockReading::new(seconds, nanos).unwrap();
            assert_eq!(reading.elapsed_since(&commit), expected);
        }
    }
}

#[test]
fn decimal_of_small_and_large_numbers() {
    let mut out = String::new();
    push_decimal(&mut out, 0);
    assert_eq!(out, "0");
    let mut out = String::from("n=");
    push_decimal(&mut out, 12_345);
    assert_eq!(out, "n=12345");
    let mut out = String::new();
    push_decimal(&mut out, -1);
    assert_eq!(out, "-1");
    let mut out = String::new();
    push_decimal(&mut out, i64::MAX);
    assert_eq!(out, "9223372036854775807");
    let mut out = String::new();
    push_decimal(&mut out, i64::MIN);
    assert_eq!(out, "-9223372036854775808");
}

#[test]
fn digits_of_unsigned_numbers() {
    let mut out = String::new();
    push_digits(&mut out, 7);
    push_digits(&mut out, 10);
    push_digits(&mut out, 909);
    assert_eq!(out, "710909");
    let mut out = String::new();
    push_digits(&mut out, u64::MAX);
    assert_eq!(out, "18446744073709551615");
}

#[test]
fn magnitude_of_the_least_number_fits() {
    assert_eq!(magnitude_of(0), 0);
    assert_eq!(magnitude_of(5), 5);
    assert_eq!(magnitude_of(-5), 5);
    assert_eq!(magnitude_of(i64::MIN), 9_223_372_036_854_775_808);
    assert_eq!(magnitude_of(i64::MAX), 9_223_372_036_854_775_807);
}
