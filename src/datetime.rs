//! Calendar date-times as plain fields, with their position on a timeline.
use vstd::prelude::*;

verus! {

/// A calendar date and wall-clock time, without a zone.
#[derive(Clone, Copy, Debug, PartialEq, Eq)]
pub struct LocalDateTime {
    pub year: i32,
    pub month: u32,
    pub day: u32,
    pub hour: u32,
    pub minute: u32,
    pub second: u32,
    pub nanosecond: u32,
}

/// Nanoseconds in one second.
pub const NANOS_PER_SECOND: u32 = 1_000_000_000;

/// Gregorian leap year.
pub open spec fn is_leap_year(y: int) -> bool {
    y % 4 == 0 && (y % 100 != 0 || y % 400 == 0)
}

pub open spec fn days_in_month(y: int, m: int) -> int {
    if m == 2 {
        if is_leap_year(y) {
            29
        } else {
            28
        }
    } else if m == 4 || m == 6 || m == 9 || m == 11 {
        30
    } else {
        31
    }
}

/// A real calendar day in the years 0000 to 9999.
pub open spec fn is_valid_date(y: int, m: int, d: int) -> bool {
    0 <= y <= 9999 && 1 <= m <= 12 && 1 <= d <= days_in_month(y, m)
}

/// A wall-clock time of day, to the second.
pub open spec fn is_valid_time(h: int, mi: int, s: int) -> bool {
    0 <= h < 24 && 0 <= mi < 60 && 0 <= s < 60
}

/// Days from 0000-01-01 to the first day of year `y` (proleptic Gregorian, `y >= 0`).
pub open spec fn days_before_year(y: int) -> int {
    365 * y + (y + 3) / 4 - (y + 99) / 100 + (y + 399) / 400
}

/// Days from the first of January to the first day of month `m` of year `y`.
pub open spec fn days_before_month(y: int, m: int) -> int
    decreases m,
{
    if m <= 1 {
        0
    } else {
        days_before_month(y, m - 1) + days_in_month(y, m - 1)
    }
}

/// Seconds from 0000-01-01T00:00:00 (proleptic Gregorian).
#[verifier::opaque]
pub open spec fn civil_seconds(y: int, m: int, d: int, h: int, mi: int, s: int) -> int {
    (days_before_year(y) + days_before_month(y, m) + d - 1) * 86400 + h * 3600 + mi * 60 + s
}

/// Seconds between 0000-01-01T00:00:00 and 1970-01-01T00:00:00.
pub open spec fn unix_epoch_seconds() -> int {
    civil_seconds(1970, 1, 1, 0, 0, 0)
}

impl LocalDateTime {
    /// Every field holds a real calendar value.
    pub open spec fn wf(&self) -> bool {
        &&& is_valid_date(self.year as int, self.month as int, self.day as int)
        &&& is_valid_time(self.hour as int, self.minute as int, self.second as int)
        &&& self.nanosecond < NANOS_PER_SECOND
    }

    /// Whole seconds since 0000-01-01T00:00:00.
    pub open spec fn seconds(&self) -> int {
        civil_seconds(
            self.year as int,
            self.month as int,
            self.day as int,
            self.hour as int,
            self.minute as int,
            self.second as int,
        )
    }

    /// Position on the timeline, in nanoseconds.
    pub open spec fn instant(&self) -> int {
        self.seconds() * NANOS_PER_SECOND + self.nanosecond
    }

    /// A date-time at a whole second.
    pub fn new(year: i32, month: u32, day: u32, hour: u32, minute: u32, second: u32) -> (r: Self)
        ensures
            r == (LocalDateTime { year, month, day, hour, minute, second, nanosecond: 0 }),
    {
        LocalDateTime { year, month, day, hour, minute, second, nanosecond: 0 }
    }

    /// Whether the fields hold a real calendar value.
    pub fn is_valid(&self) -> (r: bool)
        ensures
            r == self.wf(),
    {
        self.year >= 0 && self.year <= 9999 && month_day_valid(self.year, self.month, self.day)
            && self.hour < 24 && self.minute < 60 && self.second < 60
            && self.nanosecond < NANOS_PER_SECOND
    }

    /// Position on the timeline, in nanoseconds.
    pub fn instant_nanos(&self) -> (r: i128)
        requires
            self.wf(),
        ensures
            r == self.instant(),
            0 <= r <= 400_000_000_000_000_000_000,
    {
        reveal(civil_seconds);
        let days = days_before_year_exec(self.year) + days_before_month_exec(self.year, self.month)
            + self.day as i64 - 1;
        let secs = days * 86400 + self.hour as i64 * 3600 + self.minute as i64 * 60
            + self.second as i64;
        secs as i128 * 1_000_000_000 + self.nanosecond as i128
    }
}

pub fn is_leap_year_exec(y: i32) -> (r: bool)
    ensures
        r == is_leap_year(y as int),
{
    y % 4 == 0 && (y % 100 != 0 || y % 400 == 0)
}

pub fn days_in_month_exec(y: i32, m: u32) -> (r: u32)
    ensures
        r == days_in_month(y as int, m as int),
{
    if m == 2 {
        if is_leap_year_exec(y) {
            29
        } else {
            28
        }
    } else if m == 4 || m == 6 || m == 9 || m == 11 {
        30
    } else {
        31
    }
}

/// Whether `month` and `day` name a real day of year `year`.
pub fn month_day_valid(year: i32, month: u32, day: u32) -> (r: bool)
    ensures
        r == (1 <= month <= 12 && 1 <= day <= days_in_month(year as int, month as int)),
{
    month >= 1 && month <= 12 && day >= 1 && day <= days_in_month_exec(year, month)
}

fn days_before_year_exec(y: i32) -> (r: i64)
    requires
        0 <= y <= 9999,
    ensures
        r == days_before_year(y as int),
        0 <= r <= 366 * 10000,
{
    let y = y as i64;
    365 * y + (y + 3) / 4 - (y + 99) / 100 + (y + 399) / 400
}

fn days_before_month_exec(y: i32, m: u32) -> (r: i64)
    requires
        m <= 12,
    ensures
        r == days_before_month(y as int, m as int),
        0 <= r <= 31 * 12,
{
    let mut acc: i64 = 0;
    let mut k: u32 = 1;
    while k < m
        invariant
            1 <= k,
            k <= m || m <= 1,
            m <= 12,
            acc == days_before_month(y as int, k as int),
            0 <= acc <= 31 * (k - 1),
        decreases m - k,
    {
        acc = acc + days_in_month_exec(y, k) as i64;
        k = k + 1;
    }
    if m <= 1 {
        assert(days_before_month(y as int, m as int) == 0);
        0
    } else {
        acc
    }
}

} // verus!
