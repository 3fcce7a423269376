//! The nine instants of a prayer day, composed from solar measurements, and
//! the lookup of the prayer that a given instant falls in.
//!
//! Every time of day is handled as a signed count of milliseconds after the
//! local midnight of the computed date.
use vstd::prelude::*;
use crate::calendar::{Date, DateTime, Error, MAX_YEAR, SECONDS_PER_DAY};
use crate::hijri::{HijriDate, HIJRI_EPOCH_DAY, is_ramadan_index};
use crate::prayer::{Prayer, successor};

verus! {

pub const MS_PER_SECOND: i64 = 1000;

pub const MS_PER_MINUTE: i64 = 60_000;

pub const MS_PER_HOUR: i64 = 3_600_000;

pub const MS_PER_DAY: i64 = 86_400_000;

/// Half a day: the longest arc between solar noon and a sun angle.
pub const MS_PER_HALF_DAY: i64 = 43_200_000;

/// The largest magnitude of a solar noon that the computation accepts.
pub const NOON_LIMIT: i64 = 1_000_000_000_000;

/// Solar measurements of one day at one place.
///
/// `noon` is the local time of solar noon; each arc is the time between solar
/// noon and the moment the sun crosses the named angle, at most half a day.
#[derive(Debug, Clone, Copy, PartialEq, Eq, Structural)]
pub struct SolarDay {
    pub noon: i64,
    /// The arc to the Asr shadow angle of the chosen school.
    pub asr_arc: i64,
    /// The arc to the refracted horizon (sunrise and sunset).
    pub horizon_arc: i64,
    /// The arc to the Fajr angle below the horizon.
    pub fajr_arc: i64,
    /// The arc to the Ishaa angle below the horizon.
    pub ishaa_arc: i64,
}

/// Minutes of Ishaa after Maghreb; zero where Ishaa follows its angle instead.
#[derive(Debug, Clone, Copy, PartialEq, Eq, Structural)]
pub struct IshaInterval {
    pub all_year: u32,
    pub ramadan: u32,
}

/// The parts of a calculation method that act on the composition of the day.
#[derive(Debug, Clone, Copy, PartialEq, Eq, Structural)]
pub struct Config {
    pub isha_interval: IshaInterval,
    /// Summer time: every instant one hour later.
    pub is_summer: bool,
}

pub open spec fn valid_arc(a: i64) -> bool {
    0 <= a <= MS_PER_HALF_DAY
}

impl SolarDay {
    pub open spec fn wf(&self) -> bool {
        &&& -NOON_LIMIT <= self.noon <= NOON_LIMIT
        &&& valid_arc(self.asr_arc)
        &&& valid_arc(self.horizon_arc)
        &&& valid_arc(self.fajr_arc)
        &&& valid_arc(self.ishaa_arc)
    }
}

pub open spec fn dohr_value(s: SolarDay) -> int {
    s.noon as int
}

pub open spec fn asr_value(s: SolarDay) -> int {
    s.noon + s.asr_arc
}

pub open spec fn maghreb_value(s: SolarDay) -> int {
    s.noon + s.horizon_arc
}

pub open spec fn sherook_value(s: SolarDay) -> int {
    s.noon - s.horizon_arc
}

pub open spec fn fajr_value(s: SolarDay) -> int {
    s.noon - s.fajr_arc
}

/// Ishaa: a fixed interval after Maghreb (the Ramadan one in Ramadan) where
/// the method sets one, else the Ishaa angle.
pub open spec fn ishaa_value(s: SolarDay, c: Config, ramadan: bool) -> int {
    if c.isha_interval.all_year > 0 {
        let minutes: int = if ramadan {
            c.isha_interval.ramadan as int
        } else {
            c.isha_interval.all_year as int
        };
        maghreb_value(s) + minutes * MS_PER_MINUTE
    } else {
        s.noon + s.ishaa_arc
    }
}

/// From Maghreb to the next Fajr, taking tomorrow's Fajr at today's time.
pub open spec fn night_length(s: SolarDay) -> int {
    MS_PER_DAY - (maghreb_value(s) - fajr_value(s))
}

pub open spec fn first_third_value(s: SolarDay) -> int {
    maghreb_value(s) + night_length(s) / 3
}

pub open spec fn midnight_value(s: SolarDay) -> int {
    maghreb_value(s) + night_length(s) / 2
}

pub open spec fn last_third_value(s: SolarDay) -> int {
    maghreb_value(s) + (2 * night_length(s)) / 3
}

/// The wall-clock time on `date` of `v` milliseconds after its midnight: the
/// hour wraps around the day (summer time adding one), minute and second are
/// truncated.
pub open spec fn clock_at(date: Date, v: int, summer: bool) -> DateTime {
    let shift: int = if summer { 1 } else { 0 };
    DateTime {
        date,
        hour: ((v / (MS_PER_HOUR as int) + shift) % 24) as u32,
        minute: ((v % (MS_PER_HOUR as int)) / (MS_PER_MINUTE as int)) as u32,
        second: ((v % (MS_PER_MINUTE as int)) / (MS_PER_SECOND as int)) as u32,
    }
}

/// The date that follows `date`.
pub open spec fn next_date(date: Date) -> Date {
    Date { year: date.next().0 as i32, month: date.next().1 as u32, day: date.next().2 as u32 }
}

pub open spec fn is_last_date(date: Date) -> bool {
    date.year == MAX_YEAR && date.month == 12 && date.day == 31
}

/// The schedule of `date`, from its measurements `s`, the measurements `t` of
/// the day after, and whether `date` falls in Ramadan.
pub open spec fn schedule_of(
    date: Date,
    s: SolarDay,
    t: SolarDay,
    c: Config,
    ramadan: bool,
) -> PrayerTimes {
    let at = |v: int| clock_at(date, v, c.is_summer);
    PrayerTimes {
        date: DateTime { date, hour: 0, minute: 0, second: 0 },
        config: c,
        dohr: at(dohr_value(s)),
        asr: at(asr_value(s)),
        maghreb: at(maghreb_value(s)),
        ishaa: at(ishaa_value(s, c, ramadan)),
        fajr: at(fajr_value(s)),
        fajr_tomorrow: clock_at(next_date(date), fajr_value(t), c.is_summer),
        sherook: at(sherook_value(s)),
        first_third_of_night: at(first_third_value(s)),
        midnight: at(midnight_value(s)),
        last_third_of_night: at(last_third_value(s)),
    }
}

/// What the computation of `date`'s schedule yields: its schedule, or
/// `InvalidDate` where `date` has no following day.
pub open spec fn schedule_result(date: Date, s: SolarDay, t: SolarDay, c: Config) -> Result<
    PrayerTimes,
    Error,
> {
    if is_last_date(date) {
        Err(Error::InvalidDate)
    } else {
        Ok(schedule_of(date, s, t, c, is_ramadan_index(date.day_number() - HIJRI_EPOCH_DAY)))
    }
}

/// The prayer times of one date.
#[derive(Debug, Clone, Copy, PartialEq, Eq, Structural)]
pub struct PrayerTimes {
    /// The start of the computed date.
    pub date: DateTime,
    pub config: Config,
    pub dohr: DateTime,
    pub asr: DateTime,
    pub maghreb: DateTime,
    pub ishaa: DateTime,
    pub fajr: DateTime,
    /// Fajr of the following date, which closes the Ishaa interval.
    pub fajr_tomorrow: DateTime,
    pub sherook: DateTime,
    pub first_third_of_night: DateTime,
    pub midnight: DateTime,
    pub last_third_of_night: DateTime,
}

/// `(a / b, a % b)` with the quotient rounded down and the remainder non-negative.
fn div_mod_floor(a: i64, b: i64) -> (r: (i64, i64))
    requires
        -0x4000_0000_0000_0000 <= a,
        0 < b <= 0x4000_0000,
    ensures
        r.0 == a / b,
        r.1 == a % b,
{
    if a >= 0 {
        (a / b, a % b)
    } else {
        let p: i64 = -(a + 1);
        let pq: i64 = p / b;
        proof {
            assert(0 <= pq * b <= p) by (nonlinear_arith)
                requires p >= 0, b > 0, pq == p / b;
            assert(p - pq * b < b) by (nonlinear_arith)
                requires p >= 0, b > 0, pq == p / b;
        }
        let q: i64 = -pq - 1;
        assert(-p - b <= q * b <= -b) by (nonlinear_arith)
            requires q == -pq - 1, 0 <= pq * b <= p, b > 0;
        let m: i64 = a - q * b;
        proof {
            assert(0 <= m < b && a == q * b + m) by (nonlinear_arith)
                requires
                    a == -(p + 1),
                    0 <= pq * b <= p,
                    p - pq * b < b,
                    q == -pq - 1,
                    m == a - q * b,
            {
            }
            vstd::arithmetic::div_mod::lemma_fundamental_div_mod_converse(a as int, b as int, q as int, m as int);
        }
        (q, m)
    }
}

/// The wall-clock time on `date` of `value` milliseconds after its midnight.
fn clock_time(date: Date, value: i64, summer: bool) -> (r: Result<DateTime, Error>)
    requires
        -0x4000_0000_0000_0000 <= value <= 0x4000_0000_0000_0000,
    ensures
        r == Ok::<DateTime, Error>(clock_at(date, value as int, summer)),
        date.wf() ==> clock_at(date, value as int, summer).wf(),
{
    let (hours, within_hour) = div_mod_floor(value, MS_PER_HOUR);
    let shift: i64 = if summer { 1 } else { 0 };
    let (_, hour) = div_mod_floor(hours + shift, 24);
    let (_, within_minute) = div_mod_floor(value, MS_PER_MINUTE);
    let minute: i64 = within_hour / MS_PER_MINUTE;
    let second: i64 = within_minute / MS_PER_SECOND;
    date.and_hms(hour as u32, minute as u32, second as u32)
}

impl PrayerTimes {
    pub open spec fn wf(&self) -> bool {
        &&& self.date.wf()
        &&& self.dohr.wf()
        &&& self.asr.wf()
        &&& self.maghreb.wf()
        &&& self.ishaa.wf()
        &&& self.fajr.wf()
        &&& self.fajr_tomorrow.wf()
        &&& self.sherook.wf()
        &&& self.first_third_of_night.wf()
        &&& self.midnight.wf()
        &&& self.last_third_of_night.wf()
    }

    /// The prayer times of `date`, from the solar measurements of that day
    /// (`today`) and of the day after (`tomorrow`, for the next Fajr).
    ///
    /// Every instant is composed from solar noon, so Dohr comes first; the
    /// divisions of the night follow Maghreb and Fajr. Fails with
    /// `InvalidDate` only where `date` has no following day.
    pub fn new(date: Date, today: SolarDay, tomorrow: SolarDay, config: Config) -> (r: Result<
        PrayerTimes,
        Error,
    >)
        requires
            date.wf(),
            today.wf(),
            tomorrow.wf(),
        ensures
            r == schedule_result(date, today, tomorrow, config),
            r matches Ok(p) ==> p.wf(),
    {
        let summer = config.is_summer;
        let start = date.and_hms(0, 0, 0)?;

        // Dohr first: every other instant is measured from solar noon.
        let dohr_ms: i64 = today.noon;
        let dohr = clock_time(date, dohr_ms, summer)?;
        let asr_ms: i64 = dohr_ms + today.asr_arc;
        let asr = clock_time(date, asr_ms, summer)?;
        let maghreb_ms: i64 = dohr_ms + today.horizon_arc;
        let maghreb = clock_time(date, maghreb_ms, summer)?;
        let ishaa_ms: i64 = if config.isha_interval.all_year > 0 {
            let minutes: u32 = if HijriDate::is_ramadan(date) {
                config.isha_interval.ramadan
            } else {
                config.isha_interval.all_year
            };
            maghreb_ms + minutes as i64 * MS_PER_MINUTE
        } else {
            dohr_ms + today.ishaa_arc
        };
        let ishaa = clock_time(date, ishaa_ms, summer)?;
        let fajr_ms: i64 = dohr_ms - today.fajr_arc;
        let fajr = clock_time(date, fajr_ms, summer)?;
        let sherook_ms: i64 = dohr_ms - today.horizon_arc;
        let sherook = clock_time(date, sherook_ms, summer)?;

        // The night runs from Maghreb to the next Fajr.
        let night: i64 = MS_PER_DAY - (maghreb_ms - fajr_ms);
        let first_third_of_night = clock_time(date, maghreb_ms + night / 3, summer)?;
        let midnight = clock_time(date, maghreb_ms + night / 2, summer)?;
        let last_third_of_night = clock_time(date, maghreb_ms + 2 * night / 3, summer)?;

        let next = date.succ()?;
        let fajr_tomorrow = clock_time(next, tomorrow.noon - tomorrow.fajr_arc, summer)?;
        Ok(PrayerTimes {
            date: start,
            config,
            dohr,
            asr,
            maghreb,
            ishaa,
            fajr,
            fajr_tomorrow,
            sherook,
            first_third_of_night,
            midnight,
            last_third_of_night,
        })
    }
}

/// The time of a prayer in the schedule.
pub open spec fn time_of(pt: PrayerTimes, p: Prayer) -> DateTime {
    match p {
        Prayer::Fajr => pt.fajr,
        Prayer::Sherook => pt.sherook,
        Prayer::Dohr => pt.dohr,
        Prayer::Asr => pt.asr,
        Prayer::Maghreb => pt.maghreb,
        Prayer::Ishaa => pt.ishaa,
    }
}

/// The instant `t` lies in the half-open interval from `a` to `b`.
pub open spec fn within(t: int, a: DateTime, b: DateTime) -> bool {
    a.instant() <= t < b.instant()
}

/// The prayer whose interval holds the instant `t`.
///
/// The intervals run Fajr to Sherook, Sherook to Dohr, and so on to Ishaa,
/// which ends at the next Fajr; where they overlap, the later one in that
/// order wins. An instant before the day's Fajr, from the time of this day's
/// Ishaa one day earlier on, is still in the Ishaa of the night before.
pub open spec fn current_of(pt: PrayerTimes, t: int) -> Option<Prayer> {
    if within(t, pt.ishaa, pt.fajr_tomorrow) {
        Some(Prayer::Ishaa)
    } else if within(t, pt.maghreb, pt.ishaa) {
        Some(Prayer::Maghreb)
    } else if within(t, pt.asr, pt.maghreb) {
        Some(Prayer::Asr)
    } else if within(t, pt.dohr, pt.asr) {
        Some(Prayer::Dohr)
    } else if within(t, pt.sherook, pt.dohr) {
        Some(Prayer::Sherook)
    } else if within(t, pt.fajr, pt.sherook) {
        Some(Prayer::Fajr)
    } else if t < pt.fajr.instant() && pt.ishaa.instant() <= t + SECONDS_PER_DAY {
        Some(Prayer::Ishaa)
    } else {
        None
    }
}

/// The prayer that comes after the one in progress at `t`.
pub open spec fn next_of(pt: PrayerTimes, t: int) -> Option<Prayer> {
    match current_of(pt, t) {
        Some(p) => Some(successor(p)),
        None => None,
    }
}

/// The time of a prayer when it comes on the following day: for Fajr the
/// next Fajr, for the others their time in the schedule.
pub open spec fn later_time_of(pt: PrayerTimes, p: Prayer) -> DateTime {
    match p {
        Prayer::Fajr => pt.fajr_tomorrow,
        _ => time_of(pt, p),
    }
}

/// Seconds from `now` to `target`; where `target` is earlier, the prayer
/// comes after midnight, and the count runs to `later`, its time on the
/// following day.
pub open spec fn remaining_span(now: DateTime, target: DateTime, later: DateTime) -> int {
    if target.instant() < now.instant() {
        later.instant() - now.instant()
    } else {
        target.instant() - now.instant()
    }
}

/// Whole hours and the rounded remaining minutes of `span` seconds; a
/// negative span counts as none, and the hours stop at `u32::MAX`.
pub open spec fn hours_and_minutes(span: int) -> (u32, u32) {
    let secs: int = if span < 0 { 0 } else { span };
    let hours: int = secs / 3600;
    (
        (if hours > u32::MAX { u32::MAX as int } else { hours }) as u32,
        ((secs % 3600 + 30) / 60) as u32,
    )
}

/// Whole hours and rounded minutes of `span` seconds.
fn hours_minutes(span: i64) -> (r: (u32, u32))
    ensures
        r == hours_and_minutes(span as int),
{
    let secs: i64 = if span < 0 { 0 } else { span };
    let hours: i64 = secs / 3600;
    let minutes: i64 = (secs % 3600 + 30) / 60;
    let hours: u32 = if hours > u32::MAX as i64 { u32::MAX } else { hours as u32 };
    (hours, minutes as u32)
}

impl PrayerTimes {
    /// Whether every instant of the schedule is a valid date-time.
    pub fn is_valid(&self) -> (r: bool)
        ensures
            r == self.wf(),
    {
        self.date.is_valid() && self.dohr.is_valid() && self.asr.is_valid()
            && self.maghreb.is_valid() && self.ishaa.is_valid() && self.fajr.is_valid()
            && self.fajr_tomorrow.is_valid() && self.sherook.is_valid()
            && self.first_third_of_night.is_valid() && self.midnight.is_valid()
            && self.last_third_of_night.is_valid()
    }

    /// The time of `prayer` in this schedule.
    pub fn time(&self, prayer: Prayer) -> (r: DateTime)
        ensures
            r == time_of(*self, prayer),
    {
        match prayer {
            Prayer::Fajr => self.fajr,
            Prayer::Sherook => self.sherook,
            Prayer::Dohr => self.dohr,
            Prayer::Asr => self.asr,
            Prayer::Maghreb => self.maghreb,
            Prayer::Ishaa => self.ishaa,
        }
    }

    /// The prayer in progress at `now`, or `NoCurrentPrayer` where no interval holds it.
    pub fn current(&self, now: DateTime) -> (r: Result<Prayer, Error>)
        requires
            self.wf(),
            now.wf(),
        ensures
            r == (match current_of(*self, now.instant()) {
                Some(p) => Ok::<Prayer, Error>(p),
                None => Err(Error::NoCurrentPrayer),
            }),
    {
        let t = now.timestamp();
        let fajr = self.fajr.timestamp();
        let sherook = self.sherook.timestamp();
        let dohr = self.dohr.timestamp();
        let asr = self.asr.timestamp();
        let maghreb = self.maghreb.timestamp();
        let ishaa = self.ishaa.timestamp();
        let fajr_tomorrow = self.fajr_tomorrow.timestamp();
        if ishaa <= t && t < fajr_tomorrow {
            Ok(Prayer::Ishaa)
        } else if maghreb <= t && t < ishaa {
            Ok(Prayer::Maghreb)
        } else if asr <= t && t < maghreb {
            Ok(Prayer::Asr)
        } else if dohr <= t && t < asr {
            Ok(Prayer::Dohr)
        } else if sherook <= t && t < dohr {
            Ok(Prayer::Sherook)
        } else if fajr <= t && t < sherook {
            Ok(Prayer::Fajr)
        } else if t < fajr && ishaa <= t + SECONDS_PER_DAY {
            // still in the Ishaa of the night before
            Ok(Prayer::Ishaa)
        } else {
            Err(Error::NoCurrentPrayer)
        }
    }

    /// The prayer after the one in progress at `now`.
    pub fn next(&self, now: DateTime) -> (r: Result<Prayer, Error>)
        requires
            self.wf(),
            now.wf(),
        ensures
            r == (match next_of(*self, now.instant()) {
                Some(p) => Ok::<Prayer, Error>(p),
                None => Err(Error::NoCurrentPrayer),
            }),
    {
        let current = self.current(now)?;
        Ok(current.successor())
    }

    /// Hours and minutes from `now` to the next prayer.
    pub fn time_remaining(&self, now: DateTime) -> (r: Result<(u32, u32), Error>)
        requires
            self.wf(),
            now.wf(),
        ensures
            r == (match next_of(*self, now.instant()) {
                Some(p) => Ok::<(u32, u32), Error>(
                    hours_and_minutes(
                        remaining_span(now, time_of(*self, p), later_time_of(*self, p)),
                    ),
                ),
                None => Err(Error::NoCurrentPrayer),
            }),
    {
        let next = self.next(now)?;
        let target = self.time(next);
        let later = self.later_time(next);
        let t = now.timestamp();
        let goal = target.timestamp();
        let span: i64 = if goal < t {
            // the next prayer comes after midnight
            later.timestamp() - t
        } else {
            goal - t
        };
        Ok(hours_minutes(span))
    }

    /// The time of `prayer` when it comes on the following day.
    fn later_time(&self, prayer: Prayer) -> (r: DateTime)
        requires
            self.wf(),
        ensures
            r == later_time_of(*self, prayer),
            r.wf(),
    {
        match prayer {
            Prayer::Fajr => self.fajr_tomorrow,
            _ => self.time(prayer),
        }
    }
}

/// The instants of a schedule run strictly forward from Fajr to the next Fajr.
pub open spec fn in_order(pt: PrayerTimes) -> bool {
    &&& pt.fajr.instant() < pt.sherook.instant()
    &&& pt.sherook.instant() < pt.dohr.instant()
    &&& pt.dohr.instant() < pt.asr.instant()
    &&& pt.asr.instant() < pt.maghreb.instant()
    &&& pt.maghreb.instant() < pt.ishaa.instant()
    &&& pt.ishaa.instant() < pt.fajr_tomorrow.instant()
}

/// The instant that ends the interval of a prayer: the time of the next one.
pub open spec fn end_of(pt: PrayerTimes, p: Prayer) -> DateTime {
    match p {
        Prayer::Ishaa => pt.fajr_tomorrow,
        _ => time_of(pt, successor(p)),
    }
}

/// The day's measurements leave at least a second between consecutive
/// prayers, and every instant of the day, summer hour included, within the day.
pub open spec fn measurements_in_order(s: SolarDay, t: SolarDay, c: Config, ramadan: bool) -> bool {
    let shift: int = if c.is_summer { MS_PER_HOUR as int } else { 0 };
    &&& 0 <= fajr_value(s)
    &&& fajr_value(s) + MS_PER_SECOND <= sherook_value(s)
    &&& sherook_value(s) + MS_PER_SECOND <= dohr_value(s)
    &&& dohr_value(s) + MS_PER_SECOND <= asr_value(s)
    &&& asr_value(s) + MS_PER_SECOND <= maghreb_value(s)
    &&& maghreb_value(s) + MS_PER_SECOND <= ishaa_value(s, c, ramadan)
    &&& ishaa_value(s, c, ramadan) + shift < MS_PER_DAY
    &&& 0 <= fajr_value(t)
    &&& fajr_value(t) + shift < MS_PER_DAY
}

/// A time within the day keeps its date, and its second of the day is the
/// whole seconds of `v`, plus an hour in summer.
proof fn lemma_clock_within_day(date: Date, v: int, summer: bool)
    requires
        0 <= v,
        v + (if summer { MS_PER_HOUR as int } else { 0 }) < MS_PER_DAY,
    ensures
        clock_at(date, v, summer).date == date,
        clock_at(date, v, summer).second_of_day() == v / (MS_PER_SECOND as int) + (if summer {
            3600int
        } else {
            0
        }),
{
    let h = MS_PER_HOUR as int;
    let q = v / h;
    let r1 = v % h;
    let mi = r1 / 60000;
    let r2 = r1 % 60000;
    let se = r2 / 1000;
    let r3 = r2 % 1000;
    assert(v == h * q + r1 && 0 <= r1 < h);
    assert(r1 == 60000 * mi + r2 && 0 <= r2 < 60000);
    assert(r2 == 1000 * se + r3 && 0 <= r3 < 1000);
    vstd::arithmetic::div_mod::lemma_div_is_ordered(v, 86_399_999, h);
    vstd::arithmetic::div_mod::lemma_div_pos_is_pos(v, h);
    vstd::arithmetic::div_mod::lemma_div_is_ordered(r1, 3_599_999, 60000);
    vstd::arithmetic::div_mod::lemma_div_pos_is_pos(r1, 60000);
    assert(0 <= q < 24);
    assert(0 <= mi < 60);
    vstd::arithmetic::div_mod::lemma_fundamental_div_mod_converse(v, 60000, 60 * q + mi, r2);
    vstd::arithmetic::div_mod::lemma_fundamental_div_mod_converse(
        v,
        1000,
        3600 * q + 60 * mi + se,
        r3,
    );
}

/// Measurements in order give a schedule whose instants are in order.
pub proof fn lemma_schedule_in_order(
    date: Date,
    s: SolarDay,
    t: SolarDay,
    c: Config,
    ramadan: bool,
)
    requires
        date.wf(),
        !is_last_date(date),
        measurements_in_order(s, t, c, ramadan),
    ensures
        in_order(schedule_of(date, s, t, c, ramadan)),
{
    let summer = c.is_summer;
    let pt = schedule_of(date, s, t, c, ramadan);
    lemma_clock_within_day(date, fajr_value(s), summer);
    lemma_clock_within_day(date, sherook_value(s), summer);
    lemma_clock_within_day(date, dohr_value(s), summer);
    lemma_clock_within_day(date, asr_value(s), summer);
    lemma_clock_within_day(date, maghreb_value(s), summer);
    lemma_clock_within_day(date, ishaa_value(s, c, ramadan), summer);
    lemma_clock_within_day(next_date(date), fajr_value(t), summer);
    crate::calendar::lemma_next_day_number(date.year as int, date.month as int, date.day as int);
    crate::calendar::lemma_next_is_valid(date.year as int, date.month as int, date.day as int);
    assert(next_date(date).day_number() == date.day_number() + 1);
    assert(pt.ishaa.second_of_day() < SECONDS_PER_DAY);
    assert(pt.fajr_tomorrow.second_of_day() >= 0);
}

/// In a schedule in order, an instant in a prayer's interval is that prayer's time.
pub proof fn lemma_current_in_interval(pt: PrayerTimes, p: Prayer, t: int)
    requires
        in_order(pt),
        within(t, time_of(pt, p), end_of(pt, p)),
    ensures
        current_of(pt, t) == Some(p),
        next_of(pt, t) == Some(successor(p)),
{
}

/// In a schedule in order whose Ishaa falls on the schedule's date, every
/// instant from the start of that date up to the next Fajr is in some
/// prayer's interval: before the day's Fajr it is the night's Ishaa.
pub proof fn lemma_every_instant_has_prayer(pt: PrayerTimes, t: int)
    requires
        pt.wf(),
        in_order(pt),
        pt.ishaa.date == pt.date.date,
        pt.date.instant() <= t < pt.fajr_tomorrow.instant(),
    ensures
        current_of(pt, t) is Some,
        t < pt.fajr.instant() ==> current_of(pt, t) == Some(Prayer::Ishaa),
{
}

/// In a schedule in order, the prayer after the one in progress at the time
/// of any prayer is the one that follows it in the daily cycle.
pub proof fn lemma_next_at_prayer_time(pt: PrayerTimes, p: Prayer)
    requires
        in_order(pt),
    ensures
        current_of(pt, time_of(pt, p).instant()) == Some(p),
        next_of(pt, time_of(pt, p).instant()) == Some(successor(p)),
{
    lemma_current_in_interval(pt, p, time_of(pt, p).instant());
}

/// Midnight lies halfway between Maghreb and the next Fajr, taken at
/// today's Fajr time: the halves differ by the odd millisecond of the night.
pub proof fn lemma_midnight_halfway(s: SolarDay, t: SolarDay)
    requires
        s.wf(),
        t.wf(),
        fajr_value(t) == fajr_value(s),
    ensures
        midnight_value(s) - maghreb_value(s) == night_length(s) / 2,
        (fajr_value(t) + MS_PER_DAY - midnight_value(s)) - (midnight_value(s) - maghreb_value(s))
            == night_length(s) % 2,
{
}

/// With a fixed Ishaa interval, Ishaa is Maghreb plus the Ramadan interval
/// in Ramadan, and plus the all-year interval otherwise.
pub proof fn lemma_ramadan_branch(date: Date, s: SolarDay, t: SolarDay, c: Config)
    requires
        c.isha_interval.all_year > 0,
        schedule_result(date, s, t, c) is Ok,
    ensures
        ({
            let pt = schedule_result(date, s, t, c)->Ok_0;
            let ramadan = is_ramadan_index(date.day_number() - HIJRI_EPOCH_DAY);
            &&& ramadan ==> pt.ishaa == clock_at(
                date,
                maghreb_value(s) + c.isha_interval.ramadan * MS_PER_MINUTE,
                c.is_summer,
            )
            &&& !ramadan ==> pt.ishaa == clock_at(
                date,
                maghreb_value(s) + c.isha_interval.all_year * MS_PER_MINUTE,
                c.is_summer,
            )
        }),
{
}

/// With a fixed Ishaa interval and Maghreb and Ishaa within the day, the
/// seconds from Maghreb to Ishaa are the Ramadan interval in Ramadan and the
/// all-year interval otherwise.
pub proof fn lemma_fixed_interval_elapsed(date: Date, s: SolarDay, t: SolarDay, c: Config)
    requires
        c.isha_interval.all_year > 0,
        schedule_result(date, s, t, c) is Ok,
        0 <= maghreb_value(s),
        ishaa_value(s, c, is_ramadan_index(date.day_number() - HIJRI_EPOCH_DAY)) + (if c.is_summer {
            MS_PER_HOUR as int
        } else {
            0
        }) < MS_PER_DAY,
    ensures
        ({
            let pt = schedule_result(date, s, t, c)->Ok_0;
            let ramadan = is_ramadan_index(date.day_number() - HIJRI_EPOCH_DAY);
            let minutes: int = if ramadan {
                c.isha_interval.ramadan as int
            } else {
                c.isha_interval.all_year as int
            };
            pt.ishaa.instant() - pt.maghreb.instant() == minutes * 60
        }),
{
    let ramadan = is_ramadan_index(date.day_number() - HIJRI_EPOCH_DAY);
    let minutes: int = if ramadan {
        c.isha_interval.ramadan as int
    } else {
        c.isha_interval.all_year as int
    };
    let v = maghreb_value(s);
    lemma_clock_within_day(date, v, c.is_summer);
    lemma_clock_within_day(date, ishaa_value(s, c, ramadan), c.is_summer);
    assert(ishaa_value(s, c, ramadan) == v + 1000 * (60 * minutes));
    vstd::arithmetic::div_mod::lemma_fundamental_div_mod_converse(
        v + 1000 * (60 * minutes),
        1000,
        v / 1000 + 60 * minutes,
        v % 1000,
    );
}

/// In a schedule in order whose prayers fall on its date and whose next Fajr
/// comes within a day of Ishaa, the wait from any instant between the start
/// of the date and the next Fajr is less than a day.
pub proof fn lemma_remaining_under_a_day(pt: PrayerTimes, now: DateTime)
    requires
        pt.wf(),
        in_order(pt),
        pt.fajr.date == pt.date.date,
        pt.sherook.date == pt.date.date,
        pt.dohr.date == pt.date.date,
        pt.asr.date == pt.date.date,
        pt.maghreb.date == pt.date.date,
        pt.ishaa.date == pt.date.date,
        pt.fajr_tomorrow.instant() < pt.ishaa.instant() + SECONDS_PER_DAY,
        pt.date.instant() <= now.instant() < pt.fajr_tomorrow.instant(),
    ensures
        next_of(pt, now.instant()) is Some,
        ({
            let p = next_of(pt, now.instant())->Some_0;
            let span = remaining_span(now, time_of(pt, p), later_time_of(pt, p));
            &&& 0 <= span < SECONDS_PER_DAY
            &&& hours_and_minutes(span).0 <= 23
        }),
{
    lemma_every_instant_has_prayer(pt, now.instant());
}

/// The computation is a function of its inputs: equal inputs, equal results.
pub proof fn lemma_deterministic(
    date: Date,
    s: SolarDay,
    t: SolarDay,
    c: Config,
    date2: Date,
    s2: SolarDay,
    t2: SolarDay,
    c2: Config,
)
    requires
        date == date2,
        s == s2,
        t == t2,
        c == c2,
    ensures
        schedule_result(date, s, t, c) == schedule_result(date2, s2, t2, c2),
{
}

} // verus!
