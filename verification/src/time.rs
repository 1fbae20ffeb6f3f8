//! Wall-clock instants without a zone, counted in whole seconds.

use vstd::prelude::*;

verus! {

/// Midnight that opens the year -262143, in seconds from 1970-01-01 00:00:00.
pub const MIN_SECONDS: i64 = -8_334_601_228_800;

/// The last second of the year 262142, in seconds from 1970-01-01 00:00:00.
pub const MAX_SECONDS: i64 = 8_210_266_876_799;

/// Nanoseconds in a second.
pub const SECOND_NANOS: u32 = 1_000_000_000;

/// Whether a second count falls on a day that the calendar can name.
pub open spec fn on_calendar(seconds: int) -> bool {
    MIN_SECONDS <= seconds <= MAX_SECONDS
}

/// The reading of a committer's clock for an instant given as seconds since
/// the epoch in UTC and the clock's offset from UTC in minutes.
pub open spec fn shifted(epoch_seconds: int, offset_minutes: int) -> int {
    epoch_seconds + 60 * offset_minutes
}

/// Date and time of day of the second `seconds` after 1970-01-01 00:00:00,
/// as chrono writes them: `YYYY-MM-DD HH:MM:SS` for a year of four digits.
pub uninterp spec fn calendar_form(seconds: i64) -> Seq<char>;

/// A reading of some clock: seconds since 1970-01-01 00:00:00 on that clock.
#[derive(Clone, Copy, Debug, PartialEq, Eq)]
pub struct LocalTime {
    seconds: i64,
}

impl View for LocalTime {
    type V = int;

    closed spec fn view(&self) -> int {
        self.seconds as int
    }
}

impl LocalTime {
    /// Every reading lies on the calendar.
    #[verifier::type_invariant]
    pub open spec fn wf(self) -> bool {
        on_calendar(self@)
    }

    /// The reading `seconds`, if the calendar can name its day.
    pub fn new(seconds: i64) -> (time: Option<LocalTime>)
        ensures
            time is Some <==> on_calendar(seconds as int),
            time matches Some(t) ==> t@ == seconds && t.wf(),
    {
        if MIN_SECONDS <= seconds && seconds <= MAX_SECONDS {
            Some(LocalTime { seconds })
        } else {
            None
        }
    }

    /// The committer's clock at the instant `epoch_seconds` (UTC), the clock
    /// being `offset_minutes` ahead of UTC.
    pub fn from_commit(epoch_seconds: i64, offset_minutes: i32) -> (time: Option<LocalTime>)
        ensures
            time is Some <==> on_calendar(shifted(epoch_seconds as int, offset_minutes as int)),
            time matches Some(t) ==> t@ == shifted(epoch_seconds as int, offset_minutes as int)
                && t.wf(),
    {
        let shift: i64 = 60 * (offset_minutes as i64);
        match epoch_seconds.checked_add(shift) {
            Some(seconds) => LocalTime::new(seconds),
            None => None,
        }
    }

    /// Seconds since 1970-01-01 00:00:00 on the clock that was read.
    pub fn seconds(&self) -> (seconds: i64)
        ensures
            seconds == self@,
            on_calendar(seconds as int),
    {
        proof {
            use_type_invariant(self);
        }
        self.seconds
    }

    /// Seconds from `earlier` to `self`; negative where `self` is the earlier.
    pub fn seconds_since(&self, earlier: &LocalTime) -> (delta: i64)
        ensures
            delta == self@ - earlier@,
    {
        proof {
            use_type_invariant(self);
            use_type_invariant(earlier);
        }
        self.seconds - earlier.seconds
    }

    /// The reading as date and time of day.
    pub fn timestamp(&self) -> (text: String)
        ensures
            text@ == calendar_form(self@ as i64),
    {
        proof {
            use_type_invariant(self);
        }
        calendar_text(self.seconds).unwrap()
    }
}

/// What a `ClockReading` holds, as mathematical values.
pub struct ClockView {
    /// Whole seconds since 1970-01-01 00:00:00 on the clock.
    pub seconds: int,
    /// Nanoseconds past that second.
    pub nanos: int,
}

/// Whole seconds from the clock time `earlier` to the reading `now`, the
/// part of a second dropped: towards zero, also where `now` is the earlier
/// of the two.
pub open spec fn elapsed(now: ClockView, earlier: int) -> int {
    if now.seconds < earlier && now.nanos > 0 {
        now.seconds - earlier + 1
    } else {
        now.seconds - earlier
    }
}

/// The operator's clock as it was read: a second, and how far the clock was
/// into it.
#[derive(Clone, Copy, Debug, PartialEq, Eq)]
pub struct ClockReading {
    second: LocalTime,
    nanos: u32,
}

impl View for ClockReading {
    type V = ClockView;

    closed spec fn view(&self) -> ClockView {
        ClockView { seconds: self.second@, nanos: self.nanos as int }
    }
}

impl ClockReading {
    /// The second lies on the calendar, and the rest is less than a second.
    #[verifier::type_invariant]
    pub open spec fn wf(self) -> bool {
        on_calendar(self@.seconds) && 0 <= self@.nanos < SECOND_NANOS
    }

    /// The reading of `nanos` nanoseconds past the second `seconds`, if the
    /// calendar can name the day and `nanos` is less than a second.
    pub fn new(seconds: i64, nanos: u32) -> (reading: Option<ClockReading>)
        ensures
            reading is Some <==> on_calendar(seconds as int) && nanos < SECOND_NANOS,
            reading matches Some(r) ==> r@ == (ClockView {
                seconds: seconds as int,
                nanos: nanos as int,
            }) && r.wf(),
    {
        if nanos >= SECOND_NANOS {
            return None;
        }
        match LocalTime::new(seconds) {
            Some(second) => Some(ClockReading { second, nanos }),
            None => None,
        }
    }

    /// The second that the clock was in.
    pub fn second(&self) -> (second: LocalTime)
        ensures
            second@ == self@.seconds,
    {
        self.second
    }

    /// Nanoseconds past the second.
    pub fn nanos(&self) -> (nanos: u32)
        ensures
            nanos == self@.nanos,
            nanos < SECOND_NANOS,
    {
        proof {
            use_type_invariant(self);
        }
        self.nanos
    }

    /// Whole seconds from `earlier` to this reading.
    pub fn elapsed_since(&self, earlier: &LocalTime) -> (delta: i64)
        ensures
            delta == elapsed(self@, earlier@),
    {
        proof {
            use_type_invariant(self);
        }
        let whole: i64 = self.second.seconds_since(earlier);
        if whole < 0 && self.nanos > 0 {
            whole + 1
        } else {
            whole
        }
    }
}

/// Calls `chrono::DateTime::from_timestamp` with no nanoseconds and writes the
/// zoneless date and time it gives through their `Display`. chrono gives a
/// date exactly for the seconds of the years -262143 to 262142; the text is
/// whatever chrono writes for that second.
#[verifier::external_body]
fn calendar_text(seconds: i64) -> (text: Option<String>)
    ensures
        text is Some <==> on_calendar(seconds as int),
        text matches Some(t) ==> t@ == calendar_form(seconds),
{
    match chrono::DateTime::from_timestamp(seconds, 0) {
        Some(instant) => Some(instant.naive_utc().to_string()),
        None => None,
    }
}

} // verus!
