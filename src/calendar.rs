//! Proleptic Gregorian dates and wall-clock date-times, with chrono as the
//! calendar authority.
use vstd::prelude::*;

verus! {

/// The smallest year that a date may carry.
pub const MIN_YEAR: i32 = -262143;

/// The largest year that a date may carry.
pub const MAX_YEAR: i32 = 262142;

/// Seconds in one day.
pub const SECONDS_PER_DAY: i64 = 86400;

/// Days between the Julian day epoch and 0001-01-01 (day one of the common era), less one.
pub const JULIAN_DAY_OF_CE: i64 = 1721425;

/// Errors of the schedule computation and of the lookup.
#[derive(Debug, Clone, Copy, PartialEq, Eq, Structural)]
pub enum Error {
    /// An hour, minute and second that do not form a time of day.
    InvalidTime,
    /// A year, month and day that do not form a date, or a date past the last one.
    InvalidDate,
    /// A query instant that falls in none of the prayer intervals.
    NoCurrentPrayer,
}

pub open spec fn is_leap_year(y: int) -> bool {
    y % 4 == 0 && (y % 100 != 0 || y % 400 == 0)
}

pub open spec fn days_in_month(y: int, m: int) -> int {
    if m == 2 {
        if is_leap_year(y) { 29 } else { 28 }
    } else if m == 4 || m == 6 || m == 9 || m == 11 {
        30
    } else {
        31
    }
}

/// A year, month and day that name a date in the supported range.
pub open spec fn valid_ymd(y: int, m: int, d: int) -> bool {
    &&& MIN_YEAR <= y <= MAX_YEAR
    &&& 1 <= m <= 12
    &&& 1 <= d <= days_in_month(y, m)
}

/// Days of the years before `y`, counted from year 1.
pub open spec fn days_before_year(y: int) -> int {
    365 * (y - 1) + (y - 1) / 4 - (y - 1) / 100 + (y - 1) / 400
}

/// Days of the months before `m` in year `y`.
pub open spec fn days_before_month(y: int, m: int) -> int {
    let leap: int = if is_leap_year(y) { 1 } else { 0 };
    if m <= 1 { 0 }
    else if m == 2 { 31 }
    else if m == 3 { 59 + leap }
    else if m == 4 { 90 + leap }
    else if m == 5 { 120 + leap }
    else if m == 6 { 151 + leap }
    else if m == 7 { 181 + leap }
    else if m == 8 { 212 + leap }
    else if m == 9 { 243 + leap }
    else if m == 10 { 273 + leap }
    else if m == 11 { 304 + leap }
    else { 334 + leap }
}

/// The day count of a date, with 0001-01-01 as day one.
pub open spec fn day_number_of(y: int, m: int, d: int) -> int {
    days_before_year(y) + days_before_month(y, m) + d
}

/// The calendar day after `(y, m, d)`.
pub open spec fn next_ymd(y: int, m: int, d: int) -> (int, int, int) {
    if d < days_in_month(y, m) {
        (y, m, d + 1)
    } else if m < 12 {
        (y, m + 1, 1)
    } else {
        (y + 1, 1, 1)
    }
}

/// A calendar date; `wf` says that it exists.
#[derive(Debug, Clone, Copy, PartialEq, Eq, Structural)]
pub struct Date {
    pub year: i32,
    pub month: u32,
    pub day: u32,
}

/// A date and a time of day to the second; `wf` says that both exist.
#[derive(Debug, Clone, Copy, PartialEq, Eq, Structural)]
pub struct DateTime {
    pub date: Date,
    pub hour: u32,
    pub minute: u32,
    pub second: u32,
}

/// Relies on chrono's `NaiveDate::from_ymd_opt` (which accepts exactly the
/// existing dates of years `MIN_YEAR..=MAX_YEAR`) and on `num_days_from_ce`
/// (the day count with 0001-01-01 as day one).
#[verifier::external_body]
fn chrono_day_number(y: i32, m: u32, d: u32) -> (r: Option<i32>)
    ensures
        r is Some <==> valid_ymd(y as int, m as int, d as int),
        r matches Some(n) ==> n == day_number_of(y as int, m as int, d as int),
{
    chrono::NaiveDate::from_ymd_opt(y, m, d).map(|n| chrono::Datelike::num_days_from_ce(&n))
}

/// Relies on chrono's `NaiveDate::from_ymd_opt` and `NaiveDate::succ_opt`:
/// the next calendar day, absent after the last date of `MAX_YEAR`.
#[verifier::external_body]
fn chrono_next_day(y: i32, m: u32, d: u32) -> (r: Option<(i32, u32, u32)>)
    requires
        valid_ymd(y as int, m as int, d as int),
    ensures
        r is Some <==> !(y == MAX_YEAR && m == 12 && d == 31),
        r matches Some(t) ==> (t.0 as int, t.1 as int, t.2 as int) == next_ymd(
            y as int,
            m as int,
            d as int,
        ),
{
    chrono::NaiveDate::from_ymd_opt(y, m, d).and_then(|n| n.succ_opt()).map(
        |n| (chrono::Datelike::year(&n), chrono::Datelike::month(&n), chrono::Datelike::day(&n)),
    )
}

/// Relies on chrono's `NaiveTime::from_hms_opt`: an hour below 24, a minute
/// and a second below 60.
#[verifier::external_body]
fn chrono_time_exists(h: u32, m: u32, s: u32) -> (r: bool)
    ensures
        r == (h < 24 && m < 60 && s < 60),
{
    chrono::NaiveTime::from_hms_opt(h, m, s).is_some()
}

impl Date {
    pub open spec fn wf(&self) -> bool {
        valid_ymd(self.year as int, self.month as int, self.day as int)
    }

    /// The day count of this date, with 0001-01-01 as day one.
    pub open spec fn day_number(&self) -> int {
        day_number_of(self.year as int, self.month as int, self.day as int)
    }

    /// The calendar day after this one.
    pub open spec fn next(&self) -> (int, int, int) {
        next_ymd(self.year as int, self.month as int, self.day as int)
    }

    /// The date `(year, month, day)`, or `InvalidDate` where no such date exists.
    pub fn new(year: i32, month: u32, day: u32) -> (r: Result<Date, Error>)
        ensures
            r is Ok <==> valid_ymd(year as int, month as int, day as int),
            r matches Ok(d) ==> d.year == year && d.month == month && d.day == day,
            r matches Err(e) ==> e == Error::InvalidDate,
    {
        match chrono_day_number(year, month, day) {
            Some(_) => Ok(Date { year, month, day }),
            None => Err(Error::InvalidDate),
        }
    }

    /// The day after this one, or `InvalidDate` after the last supported date.
    pub fn succ(&self) -> (r: Result<Date, Error>)
        requires
            self.wf(),
        ensures
            r is Ok <==> !(self.year == MAX_YEAR && self.month == 12 && self.day == 31),
            r matches Ok(n) ==> n.wf() && (n.year as int, n.month as int, n.day as int)
                == self.next(),
            r matches Err(e) ==> e == Error::InvalidDate,
    {
        match chrono_next_day(self.year, self.month, self.day) {
            Some(t) => {
                proof {
                    lemma_next_is_valid(self.year as int, self.month as int, self.day as int);
                }
                Ok(Date { year: t.0, month: t.1, day: t.2 })
            },
            None => Err(Error::InvalidDate),
        }
    }

    /// The day count of this date, with 0001-01-01 as day one.
    pub fn days_from_ce(&self) -> (r: i32)
        requires
            self.wf(),
        ensures
            r == self.day_number(),
    {
        match chrono_day_number(self.year, self.month, self.day) {
            Some(n) => n,
            None => 0,
        }
    }

    /// The astronomical Julian day number of this date (the day that begins
    /// at its noon); the Julian date of its midnight is half a day less.
    pub fn julian_day(&self) -> (r: i64)
        requires
            self.wf(),
        ensures
            r == self.day_number() + JULIAN_DAY_OF_CE,
    {
        self.days_from_ce() as i64 + JULIAN_DAY_OF_CE
    }

    /// This date at `hour:minute:second`, or `InvalidTime` where that is no time of day.
    pub fn and_hms(&self, hour: u32, minute: u32, second: u32) -> (r: Result<DateTime, Error>)
        ensures
            r is Ok <==> (hour < 24 && minute < 60 && second < 60),
            r matches Ok(t) ==> t == (DateTime { date: *self, hour, minute, second }),
            r matches Err(e) ==> e == Error::InvalidTime,
    {
        if chrono_time_exists(hour, minute, second) {
            Ok(DateTime { date: *self, hour, minute, second })
        } else {
            Err(Error::InvalidTime)
        }
    }
}

/// The day after a valid date is valid where its year is in range.
pub proof fn lemma_next_is_valid(y: int, m: int, d: int)
    requires
        valid_ymd(y, m, d),
        !(y == MAX_YEAR && m == 12 && d == 31),
    ensures
        valid_ymd(next_ymd(y, m, d).0, next_ymd(y, m, d).1, next_ymd(y, m, d).2),
{
}

/// Each year has 365 days, 366 in a leap year.
pub proof fn lemma_year_length(y: int)
    ensures
        days_before_year(y + 1) == days_before_year(y) + 365 + (if is_leap_year(y) { 1int } else { 0int }),
{
    let a = y - 1;
    assert(y / 4 - a / 4 == (if y % 4 == 0 { 1int } else { 0int }));
    assert(y / 100 - a / 100 == (if y % 100 == 0 { 1int } else { 0int }));
    assert(y / 400 - a / 400 == (if y % 400 == 0 { 1int } else { 0int }));
}

/// The day count of a supported date lies well within `i32`.
pub proof fn lemma_day_number_bounds(d: Date)
    requires
        d.wf(),
    ensures
        -96_000_000 <= d.day_number() <= 96_000_000,
{
}

/// The day after a date has the next day count.
pub proof fn lemma_next_day_number(y: int, m: int, d: int)
    requires
        valid_ymd(y, m, d),
    ensures
        day_number_of(next_ymd(y, m, d).0, next_ymd(y, m, d).1, next_ymd(y, m, d).2)
            == day_number_of(y, m, d) + 1,
{
    lemma_year_length(y);
}

impl DateTime {
    pub open spec fn wf(&self) -> bool {
        self.date.wf() && self.hour < 24 && self.minute < 60 && self.second < 60
    }

    /// Seconds of this time of day since midnight.
    pub open spec fn second_of_day(&self) -> int {
        self.hour * 3600 + self.minute * 60 + self.second
    }

    /// Seconds since the start of 0001-01-01, less one day.
    pub open spec fn instant(&self) -> int {
        self.date.day_number() * SECONDS_PER_DAY + self.second_of_day()
    }

    /// Whether the date exists and the time is a time of day.
    pub fn is_valid(&self) -> (r: bool)
        ensures
            r == self.wf(),
    {
        chrono_day_number(self.date.year, self.date.month, self.date.day).is_some()
            && chrono_time_exists(self.hour, self.minute, self.second)
    }

    /// Seconds since the start of 0001-01-01, less one day.
    pub fn timestamp(&self) -> (r: i64)
        requires
            self.wf(),
        ensures
            r == self.instant(),
            -200_000_000_000_000 <= r <= 200_000_000_000_000,
    {
        let days = self.date.days_from_ce() as i64;
        days * SECONDS_PER_DAY + (self.hour as i64 * 3600 + self.minute as i64 * 60
            + self.second as i64)
    }
}

} // verus!
