//! Local time: instants paired with the local calendar day they fall on,
//! the day of the week of a calendar day, and the resolution of a local
//! wall-clock time into an instant.
//!
//! A calendar day is counted as chrono counts it: January 1 of year 1 of the
//! proleptic Gregorian calendar is day 1.

use vstd::prelude::*;

use crate::config::Weekday;

verus! {

/// A moment in local time.
#[derive(Debug, Clone, Copy, PartialEq, Eq, Structural)]
pub struct LocalTime {
    /// Seconds since 1970-01-01 00:00:00 UTC.
    pub timestamp: i64,
    /// The local calendar day of the moment (day 1 is 0001-01-01).
    pub day: i32,
    /// The local wall-clock hour of the moment.
    pub hour: u32,
    /// The local wall-clock minute of the moment, within its hour.
    pub minute: u32,
}

impl LocalTime {
    /// The local wall-clock time of the moment, in minutes after midnight.
    pub open spec fn clock_minutes(self) -> int {
        self.hour * 60 + self.minute
    }
}

/// The day of the week with index `i` (0 is Monday).
pub open spec fn weekday_from_index(i: int) -> Weekday {
    if i == 0 {
        Weekday::Mon
    } else if i == 1 {
        Weekday::Tue
    } else if i == 2 {
        Weekday::Wed
    } else if i == 3 {
        Weekday::Thu
    } else if i == 4 {
        Weekday::Fri
    } else if i == 5 {
        Weekday::Sat
    } else {
        Weekday::Sun
    }
}

/// The day of the week of calendar day `day`: day 1 (0001-01-01) was a
/// Monday, and the days of the week repeat every seven days.
pub open spec fn weekday_of_day(day: int) -> Weekday {
    weekday_from_index((day - 1) % 7)
}

/// The day of the week of calendar day `day`.
pub fn weekday_of(day: i32) -> (res: Weekday)
    ensures
        res == weekday_of_day(day as int),
{
    // shift by a multiple of seven that makes the operand non-negative
    let shifted: i64 = day as i64 - 1 + 2_800_000_000;
    let index = shifted % 7;
    assert(index == (day as int - 1) % 7) by (nonlinear_arith)
        requires
            shifted == day as int - 1 + 7 * 400_000_000,
            shifted >= 0,
            index == shifted % 7,
    ;
    if index == 0 {
        Weekday::Mon
    } else if index == 1 {
        Weekday::Tue
    } else if index == 2 {
        Weekday::Wed
    } else if index == 3 {
        Weekday::Thu
    } else if index == 4 {
        Weekday::Fri
    } else if index == 5 {
        Weekday::Sat
    } else {
        Weekday::Sun
    }
}

/// The days of the week repeat every seven days.
pub proof fn law_weekdays_repeat_weekly(day: int)
    ensures
        weekday_of_day(day + 7) == weekday_of_day(day),
{
    assert((day + 7 - 1) % 7 == (day - 1) % 7) by (nonlinear_arith);
}

/// Calendar day 1 (0001-01-01) was a Monday, and each day's day of the
/// week is the one after the day before's: Monday, Tuesday, …, Sunday, then
/// Monday again.
pub proof fn law_weekdays_follow_each_other(day: int)
    ensures
        weekday_of_day(1) == Weekday::Mon,
        weekday_of_day(day) == Weekday::Mon ==> weekday_of_day(day + 1) == Weekday::Tue,
        weekday_of_day(day) == Weekday::Tue ==> weekday_of_day(day + 1) == Weekday::Wed,
        weekday_of_day(day) == Weekday::Wed ==> weekday_of_day(day + 1) == Weekday::Thu,
        weekday_of_day(day) == Weekday::Thu ==> weekday_of_day(day + 1) == Weekday::Fri,
        weekday_of_day(day) == Weekday::Fri ==> weekday_of_day(day + 1) == Weekday::Sat,
        weekday_of_day(day) == Weekday::Sat ==> weekday_of_day(day + 1) == Weekday::Sun,
        weekday_of_day(day) == Weekday::Sun ==> weekday_of_day(day + 1) == Weekday::Mon,
{
    let r = (day - 1) % 7;
    let q = (day - 1) / 7;
    assert(day - 1 == 7 * q + r && 0 <= r < 7) by (nonlinear_arith)
        requires
            r == (day - 1) % 7,
            q == (day - 1) / 7,
    ;
    assert((day + 1 - 1) % 7 == (r + 1) % 7) by (nonlinear_arith)
        requires
            day - 1 == 7 * q + r,
            0 <= r < 7,
    ;
}

/// Resolves the local wall-clock time `hour:minute:00` of calendar day `day`
/// into a moment. Where the time falls twice (the clock is set back), the
/// earlier moment is taken; where it does not exist (the clock jumps
/// forward) or the day is outside chrono's range, there is none.
///
/// Trusted: wraps `chrono::NaiveDateTime::and_local_timezone` with
/// `chrono::Local` (the date and time are built from the plain values with
/// `NaiveDate::from_num_days_from_ce_opt` and `NaiveDate::and_hms_opt`, the
/// moment converted back with `DateTime::timestamp`, `date_naive` and the
/// `Timelike` hour and minute). Whether there is a moment, and which
/// instant it is, depend on the time-zone rules of the machine, so nothing
/// is stated of them; a resolved moment has the local date and wall-clock
/// time that were asked for, since `TimeZone::from_local_datetime` builds it
/// from the requested local date-time and its offset.
#[verifier::external_body]
fn resolve_local(day: i32, hour: u32, minute: u32) -> (res: Option<LocalTime>)
    requires
        hour < 24,
        minute < 60,
    ensures
        res matches Some(t) ==> t.day == day && t.hour == hour && t.minute == minute,
{
    let naive = chrono::NaiveDate::from_num_days_from_ce_opt(day)?.and_hms_opt(hour, minute, 0)?;
    let moment = match naive.and_local_timezone(chrono::Local) {
        chrono::LocalResult::Single(t) => t,
        chrono::LocalResult::Ambiguous(t, _) => t,
        chrono::LocalResult::None => return None,
    };
    Some(LocalTime {
        timestamp: moment.timestamp(),
        day: chrono::Datelike::num_days_from_ce(&moment.date_naive()),
        hour: chrono::Timelike::hour(&moment),
        minute: chrono::Timelike::minute(&moment),
    })
}

/// The answer of the local time zone to a request to resolve a wall-clock
/// time of a day, with the request. Only this module makes them, and only
/// by asking the time zone.
#[derive(Debug)]
pub struct Resolution {
    day: i32,
    hour: u32,
    minute: u32,
    moment: Option<LocalTime>,
}

impl Resolution {
    /// The calendar day that was asked about.
    pub closed spec fn asked_day(self) -> int {
        self.day as int
    }

    /// The wall-clock time that was asked about, in minutes after midnight.
    pub closed spec fn asked_minutes(self) -> int {
        self.hour * 60 + self.minute
    }

    /// The moment that the time zone gave, if any.
    pub closed spec fn outcome(self) -> Option<LocalTime> {
        self.moment
    }

    /// The moment that the time zone gave, if any.
    pub fn moment(&self) -> (res: Option<LocalTime>)
        ensures
            res == self.outcome(),
    {
        self.moment
    }
}

/// Asks the local time zone for the moment at which the wall-clock time
/// `hour:minute:00` of calendar day `day` falls; see `resolve_local` for
/// which moment that is.
pub fn resolve(day: i32, hour: u32, minute: u32) -> (res: Resolution)
    requires
        hour < 24,
        minute < 60,
    ensures
        res.asked_day() == day,
        res.asked_minutes() == hour * 60 + minute,
        res.outcome() matches Some(t) ==> t.day == day && t.hour == hour && t.minute == minute,
{
    let moment = resolve_local(day, hour, minute);
    Resolution { day, hour, minute, moment }
}

} // verus!
