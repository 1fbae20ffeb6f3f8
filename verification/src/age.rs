//! How long ago a commit was made, in the coarse words shown beside a branch.

use vstd::prelude::*;
use vstd::string::*;

use crate::decimal::{decimal, push_decimal};
use crate::time::{elapsed, ClockReading, ClockView, LocalTime};

verus! {

pub const MINUTE: i64 = 60;

pub const HOUR: i64 = 3_600;

pub const DAY: i64 = 86_400;

pub const WEEK: i64 = 604_800;

/// Above this many minutes an age within one day is told in hours.
pub const MINUTES_LIMIT: i64 = 100;

/// How many whole `unit`s a span of `delta` seconds holds, the remainder
/// dropped: towards zero, also for a span that runs backwards.
pub open spec fn whole(delta: int, unit: int) -> int {
    if delta >= 0 {
        delta / unit
    } else {
        -((-delta) / unit)
    }
}

/// An age in the unit it is told in.
#[derive(Clone, Copy, Debug, PartialEq, Eq)]
pub enum Age {
    /// No whole minute has passed.
    UnderAMinute,
    Minutes(i64),
    Hours(i64),
    Days(i64),
    Weeks(i64),
}

/// The age told for a span of `delta` seconds. The tests are made in this
/// order: no whole minute; no whole day, in hours above a hundred minutes and
/// in minutes up to there; at least one whole week; and days for the rest.
pub open spec fn age_of(delta: int) -> Age {
    if whole(delta, MINUTE as int) == 0 {
        Age::UnderAMinute
    } else if whole(delta, DAY as int) == 0 {
        if whole(delta, MINUTE as int) > MINUTES_LIMIT {
            Age::Hours(whole(delta, HOUR as int) as i64)
        } else {
            Age::Minutes(whole(delta, MINUTE as int) as i64)
        }
    } else if whole(delta, WEEK as int) > 0 {
        Age::Weeks(whole(delta, WEEK as int) as i64)
    } else {
        Age::Days(whole(delta, DAY as int) as i64)
    }
}

/// The words for an age: the count in decimal, a space and the unit in the
/// plural, whatever the count.
pub open spec fn age_text(age: Age) -> Seq<char> {
    match age {
        Age::UnderAMinute => "less than 1 minute"@,
        Age::Minutes(n) => decimal(n as int) + " minutes"@,
        Age::Hours(n) => decimal(n as int) + " hours"@,
        Age::Days(n) => decimal(n as int) + " days"@,
        Age::Weeks(n) => decimal(n as int) + " weeks"@,
    }
}

/// The words shown for a commit made at `committed_at` when the clock reads
/// `now`.
pub open spec fn humanized(now: ClockView, committed_at: int) -> Seq<char> {
    age_text(age_of(elapsed(now, committed_at)))
}

impl Age {
    /// The age of something that happened `delta` seconds ago.
    pub fn of_seconds(delta: i64) -> (age: Age)
        ensures
            age == age_of(delta as int),
    {
        let minutes: i64 = delta / MINUTE;
        let days: i64 = delta / DAY;
        let weeks: i64 = delta / WEEK;
        if minutes == 0 {
            Age::UnderAMinute
        } else if days == 0 {
            if minutes > MINUTES_LIMIT {
                Age::Hours(delta / HOUR)
            } else {
                Age::Minutes(minutes)
            }
        } else if weeks > 0 {
            Age::Weeks(weeks)
        } else {
            Age::Days(days)
        }
    }

    /// The age at `now` of a commit made at `committed_at`.
    pub fn between(now: &ClockReading, committed_at: &LocalTime) -> (age: Age)
        ensures
            age == age_of(elapsed(now@, committed_at@)),
    {
        Age::of_seconds(now.elapsed_since(committed_at))
    }

    /// The age in words.
    pub fn text(&self) -> (text: String)
        ensures
            text@ == age_text(*self),
    {
        let mut out: String = String::new();
        match *self {
            Age::UnderAMinute => {
                out.append("less than 1 minute");
            },
            Age::Minutes(n) => {
                push_decimal(&mut out, n);
                out.append(" minutes");
            },
            Age::Hours(n) => {
                push_decimal(&mut out, n);
                out.append(" hours");
            },
            Age::Days(n) => {
                push_decimal(&mut out, n);
                out.append(" days");
            },
            Age::Weeks(n) => {
                push_decimal(&mut out, n);
                out.append(" weeks");
            },
        }
        assert(out@ =~= age_text(*self));
        out
    }
}

/// The age in words, at `now`, of a commit made at `committed_at`.
pub fn humanize(now: &ClockReading, committed_at: &LocalTime) -> (text: String)
    ensures
        text@ == humanized(now@, committed_at@),
{
    Age::between(now, committed_at).text()
}

} // verus!
