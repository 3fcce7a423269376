//! The tabular (civil) Hijri calendar: a thirty-year cycle of 354- and
//! 355-day years whose months alternate between 30 and 29 days.
use vstd::prelude::*;
use crate::calendar::Date;

verus! {

/// The Gregorian day count (0001-01-01 being day one) of 1 Muharram of year 1.
pub const HIJRI_EPOCH_DAY: i64 = 227015;

/// Days before Hijri year `y`, counted from 1 Muharram of year 1.
pub open spec fn hijri_year_start(y: int) -> int {
    354 * (y - 1) + (3 + 11 * y) / 30
}

/// Days before month `m` within a Hijri year.
pub open spec fn hijri_month_start(m: int) -> int {
    29 * (m - 1) + m / 2
}

pub open spec fn hijri_year_length(y: int) -> int {
    hijri_year_start(y + 1) - hijri_year_start(y)
}

/// Odd months have 30 days, even ones 29; the last month takes what is left of the year.
pub open spec fn hijri_month_length(y: int, m: int) -> int {
    if m == 12 {
        hijri_year_length(y) - hijri_month_start(12)
    } else if m % 2 == 1 {
        30
    } else {
        29
    }
}

pub open spec fn valid_hijri(y: int, m: int, d: int) -> bool {
    1 <= m <= 12 && 1 <= d <= hijri_month_length(y, m)
}

/// Days since 1 Muharram of year 1.
pub open spec fn hijri_day_index(y: int, m: int, d: int) -> int {
    hijri_year_start(y) + hijri_month_start(m) + d - 1
}

/// The Hijri day that is `n` days after 1 Muharram of year 1 falls in month 9.
pub open spec fn is_ramadan_index(n: int) -> bool {
    exists|y: int, m: int, d: int| #![trigger hijri_day_index(y, m, d)]
        valid_hijri(y, m, d) && hijri_day_index(y, m, d) == n && m == 9
}

/// A date of the Hijri calendar.
#[derive(Debug, Clone, Copy, PartialEq, Eq, Structural)]
pub struct HijriDate {
    pub year: i32,
    pub month: u32,
    pub day: u32,
}

/// A Hijri year has 354 or 355 days.
pub proof fn lemma_hijri_year_length(y: int)
    ensures
        354 <= hijri_year_length(y) <= 355,
{
    let a = 3 + 11 * y;
    assert(a / 30 <= (a + 11) / 30 <= a / 30 + 1) by (nonlinear_arith);
}

/// Later Hijri years start later.
pub proof fn lemma_hijri_year_start_monotone(y: int, z: int)
    requires
        y <= z,
    ensures
        hijri_year_start(y) + 354 * (z - y) <= hijri_year_start(z),
{
    let a = 3 + 11 * y;
    let b = 3 + 11 * z;
    assert(a <= b);
    assert(a / 30 <= b / 30) by (nonlinear_arith)
        requires a <= b;
}

/// Bounds of the start of a Hijri year.
proof fn lemma_hijri_year_start_bounds(y: int)
    ensures
        354 * (y - 1) + (11 * y - 26) / 30 <= hijri_year_start(y),
        hijri_year_start(y) <= 354 * (y - 1) + (3 + 11 * y) / 30,
        30 * hijri_year_start(y) <= 10631 * y - 10617,
        10631 * y - 10646 <= 30 * hijri_year_start(y),
{
    let a = 3 + 11 * y;
    assert(a - 29 <= 30 * (a / 30) <= a) by (nonlinear_arith);
}

/// A valid Hijri date lies within its year.
proof fn lemma_hijri_within_year(y: int, m: int, d: int)
    requires
        valid_hijri(y, m, d),
    ensures
        hijri_year_start(y) <= hijri_day_index(y, m, d) < hijri_year_start(y + 1),
{
    lemma_hijri_year_length(y);
}

/// Two valid Hijri dates with the same day index are the same date.
pub proof fn lemma_hijri_unique(y1: int, m1: int, d1: int, y2: int, m2: int, d2: int)
    requires
        valid_hijri(y1, m1, d1),
        valid_hijri(y2, m2, d2),
        hijri_day_index(y1, m1, d1) == hijri_day_index(y2, m2, d2),
    ensures
        y1 == y2 && m1 == m2 && d1 == d2,
{
    lemma_hijri_within_year(y1, m1, d1);
    lemma_hijri_within_year(y2, m2, d2);
    if y1 < y2 {
        lemma_hijri_year_start_monotone(y1 + 1, y2);
    }
    if y2 < y1 {
        lemma_hijri_year_start_monotone(y2 + 1, y1);
    }
    assert(y1 == y2);
    lemma_hijri_year_length(y1);
}

/// `hijri_year_start(y)` for years within a few million of the epoch.
fn year_start(y: i64) -> (r: i64)
    requires
        -8_000_000 <= y <= 8_000_000,
    ensures
        r == hijri_year_start(y as int),
{
    let shifted: i64 = 3 + 11 * (y + 9_000_000);
    proof {
        let a = 3 + 11 * (y as int);
        assert((a + 30 * 3_300_000) / 30 == a / 30 + 3_300_000) by (nonlinear_arith);
    }
    354 * (y - 1) + shifted / 30 - 3_300_000
}

impl HijriDate {
    pub open spec fn wf(&self) -> bool {
        valid_hijri(self.year as int, self.month as int, self.day as int)
    }

    /// Days since 1 Muharram of year 1.
    pub open spec fn day_index(&self) -> int {
        hijri_day_index(self.year as int, self.month as int, self.day as int)
    }

    /// The Hijri date of the Gregorian `date`, moved by `adjustment` days (as
    /// local calendars that follow the sighting of the moon do).
    pub fn from_gregorian(date: Date, adjustment: i32) -> (r: HijriDate)
        requires
            date.wf(),
        ensures
            r.wf(),
            r.day_index() == date.day_number() - HIJRI_EPOCH_DAY + adjustment,
    {
        let n: i64 = date.days_from_ce() as i64 - HIJRI_EPOCH_DAY + adjustment as i64;
        proof {
            crate::calendar::lemma_day_number_bounds(date);
        }
        let mut y: i64 = if n >= 0 {
            n / 355 + 1
        } else {
            -((-n) / 354)
        };
        assert(-7_000_000 <= y <= 7_000_000);
        while year_start(y) > n
            invariant
                -2_400_000_000 <= n <= 2_400_000_000,
                -7_000_000 <= y <= 7_000_000,
            decreases y + 7_000_000,
        {
            proof {
                lemma_hijri_year_start_bounds(y as int);
                lemma_hijri_year_length(y as int - 1);
            }
            y = y - 1;
        }
        while year_start(y + 1) <= n
            invariant
                -2_400_000_000 <= n <= 2_400_000_000,
                -7_000_000 <= y <= 7_000_000,
                hijri_year_start(y as int) <= n,
            decreases 7_000_000 - y,
        {
            proof {
                lemma_hijri_year_start_bounds(y as int + 1);
                lemma_hijri_year_length(y as int + 1);
            }
            y = y + 1;
        }
        proof {
            lemma_hijri_year_length(y as int);
        }
        let offset: i64 = n - year_start(y);
        let mut m: u32 = 1;
        while m < 12 && 29 * (m as i64) + ((m + 1) / 2) as i64 <= offset
            invariant
                1 <= m <= 12,
                0 <= offset < hijri_year_length(y as int),
                hijri_month_start(m as int) <= offset,
            decreases 12 - m,
        {
            m = m + 1;
        }
        let day: i64 = offset - (29 * (m as i64 - 1) + (m / 2) as i64) + 1;
        HijriDate { year: y as i32, month: m, day: day as u32 }
    }

    /// Whether the Gregorian `date` falls in Ramadan, the ninth Hijri month.
    pub fn is_ramadan(date: Date) -> (r: bool)
        requires
            date.wf(),
        ensures
            r == is_ramadan_index(date.day_number() - HIJRI_EPOCH_DAY),
    {
        let h = HijriDate::from_gregorian(date, 0);
        proof {
            if is_ramadan_index(date.day_number() - HIJRI_EPOCH_DAY) {
                let (y, m, d) = choose|y: int, m: int, d: int|
                    #![trigger hijri_day_index(y, m, d)]
                    valid_hijri(y, m, d) && hijri_day_index(y, m, d) == date.day_number()
                        - HIJRI_EPOCH_DAY && m == 9;
                lemma_hijri_unique(y, m, d, h.year as int, h.month as int, h.day as int);
            }
            if h.month == 9 {
                assert(hijri_day_index(h.year as int, h.month as int, h.day as int)
                    == date.day_number() - HIJRI_EPOCH_DAY);
            }
        }
        h.month == 9
    }
}

} // verus!
