//! Rotation timestamps: the wall-clock fields that name an archive.
//!
//! An archive name carries a fixed-width timestamp (two-digit year, month,
//! day, hour, minute, second, millisecond), so that lexicographic order of
//! names agrees with creation order.

use vstd::prelude::*;

verus! {

/// The wall-clock fields stamped into an archive name.
#[derive(Clone, Copy, PartialEq, Eq, Structural, Debug)]
pub struct Timestamp {
    /// Two-digit year, below 100.
    pub year2: u8,
    /// Month, 1 through 12.
    pub month: u8,
    /// Day of month, 1 through 31.
    pub day: u8,
    /// Hour, below 24.
    pub hour: u8,
    /// Minute, below 60.
    pub minute: u8,
    /// Second, below 60.
    pub second: u8,
    /// Millisecond, below 1000.
    pub milli: u16,
}

impl Timestamp {
    /// Every field sits in its calendar range.
    pub open spec fn wf(self) -> bool {
        &&& self.year2 < 100
        &&& 1 <= self.month <= 12
        &&& 1 <= self.day <= 31
        &&& self.hour < 24
        &&& self.minute < 60
        &&& self.second < 60
        &&& self.milli < 1000
    }

    /// The fields packed into one integer, monotone in chronological order:
    /// a later well-formed timestamp always has the larger stamp.
    pub open spec fn stamp(self) -> int {
        ((((((self.year2 as int) * 100 + self.month as int) * 100 + self.day as int) * 100
            + self.hour as int) * 100 + self.minute as int) * 100 + self.second as int) * 1000
            + self.milli as int
    }

    /// Builds a well-formed timestamp from raw clock fields: the year is
    /// reduced to its last two digits, and nanoseconds within the second are
    /// reduced to milliseconds, capped at 999 so that a leap second still
    /// renders in three digits.
    pub fn from_clock_fields(
        year: i32,
        month: u32,
        day: u32,
        hour: u32,
        minute: u32,
        second: u32,
        nanosecond: u32,
    ) -> (t: Timestamp)
        requires
            1 <= month <= 12,
            1 <= day <= 31,
            hour < 24,
            minute < 60,
            second < 60,
            nanosecond < 2_000_000_000,
        ensures
            t.wf(),
            t.year2 as int == (year as int) % 100,
            t.month == month,
            t.day == day,
            t.hour == hour,
            t.minute == minute,
            t.second == second,
            t.milli as int == if nanosecond / 1_000_000 <= 999 {
                (nanosecond / 1_000_000) as int
            } else {
                999
            },
    {
        let rem = year % 100;
        let year2: u8 = if rem < 0 {
            (rem + 100) as u8
        } else {
            rem as u8
        };
        let ms32 = nanosecond / 1_000_000;
        let milli: u16 = if ms32 > 999 {
            999
        } else {
            ms32 as u16
        };
        Timestamp {
            year2,
            month: month as u8,
            day: day as u8,
            hour: hour as u8,
            minute: minute as u8,
            second: second as u8,
            milli,
        }
    }
}

/// Relies on chrono: `chrono::Local::now().naive_local()` read through the
/// `Datelike` accessors `year`, `month` (1 through 12), `day` (1 through 31)
/// and the `Timelike` accessors `hour` (below 24), `minute` and `second`
/// (below 60), and `nanosecond` (below 2_000_000_000; values of one billion
/// and above stand for a leap second). The clock decides the values, so
/// nothing beyond those documented ranges is assumed.
#[verifier::external_body]
fn clock_now_fields() -> (r: (i32, u32, u32, u32, u32, u32, u32))
    ensures
        1 <= r.1 <= 12,
        1 <= r.2 <= 31,
        r.3 < 24,
        r.4 < 60,
        r.5 < 60,
        r.6 < 2_000_000_000,
{
    let now = chrono::Local::now().naive_local();
    (
        chrono::Datelike::year(&now),
        chrono::Datelike::month(&now),
        chrono::Datelike::day(&now),
        chrono::Timelike::hour(&now),
        chrono::Timelike::minute(&now),
        chrono::Timelike::second(&now),
        chrono::Timelike::nanosecond(&now),
    )
}

/// Reads the local wall clock as a well-formed timestamp. Nothing is promised
/// about the value beyond well-formedness: the clock may move arbitrarily
/// between calls.
pub fn now() -> (t: Timestamp)
    ensures
        t.wf(),
{
    let (year, month, day, hour, minute, second, nanosecond) = clock_now_fields();
    Timestamp::from_clock_fields(year, month, day, hour, minute, second, nanosecond)
}

} // verus!
