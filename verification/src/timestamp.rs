//! Wall-clock instants and the fixed-width text that names an output file.
//!
//! A [`Timestamp`] is a calendar reading with microsecond resolution. Its text
//! has the same width for every instant, so two different instants never
//! yield the same text.

use chrono::Datelike;
use chrono::Timelike;
use vstd::prelude::*;

use crate::text::lemma_split_equal;

verus! {

/// The pattern handed to the date-time formatter: day, month, year, an
/// underscore, hour, minute, second, an underscore and the microseconds.
pub const STAMP_PATTERN: &'static str = "%d%m%Y_%H%M%S_%6f";

/// Number of characters of every stamp.
pub const STAMP_LEN: usize = 22;

/// The largest year a stamp can hold in four digits.
pub const MAX_YEAR: i32 = 9999;

pub const NANOS_PER_MICRO: u32 = 1_000;

pub const MICROS_PER_SECOND: u32 = 1_000_000;

pub const NANOS_PER_SECOND: u32 = 1_000_000_000;

/// Whether `year` has a 29th of February in the proleptic Gregorian calendar.
pub open spec fn is_leap_year(year: int) -> bool {
    year % 4 == 0 && (year % 100 != 0 || year % 400 == 0)
}

/// Number of days of `month` (1 to 12) in `year`; 0 for any other month.
pub open spec fn days_in_month(year: int, month: int) -> int {
    if month == 2 {
        if is_leap_year(year) {
            29
        } else {
            28
        }
    } else if month == 4 || month == 6 || month == 9 || month == 11 {
        30
    } else if 1 <= month <= 12 {
        31
    } else {
        0
    }
}

/// The character of the decimal digit `d`, for `d` from 0 to 9.
pub open spec fn digit_char(d: int) -> char {
    ((d + 48) as u8) as char
}

/// `value` written in decimal with exactly `width` digits: the lowest
/// `width` digits of it, padded with zeros on the left.
pub open spec fn zero_padded(value: nat, width: nat) -> Seq<char>
    decreases width,
{
    if width == 0 {
        Seq::empty()
    } else {
        zero_padded(value / 10, (width - 1) as nat).push(digit_char((value % 10) as int))
    }
}

/// Ten to the power `width`.
pub open spec fn pow10(width: nat) -> nat
    decreases width,
{
    if width == 0 {
        1
    } else {
        10 * pow10((width - 1) as nat)
    }
}

/// What the system clock reported, field by field, before any validation.
#[derive(Clone, Copy, Debug, PartialEq, Eq, Structural)]
pub struct ClockReading {
    pub year: i32,
    pub month: u32,
    pub day: u32,
    pub hour: u32,
    pub minute: u32,
    pub second: u32,
    pub nanosecond: u32,
}

/// A calendar instant with microsecond resolution.
///
/// `microsecond` counts from the last whole non-leap second. A value from
/// 1,000,000 on denotes a leap second and occurs only with `second == 59`.
#[derive(Clone, Copy, Debug, PartialEq, Eq, Structural)]
pub struct Timestamp {
    pub year: i32,
    pub month: u32,
    pub day: u32,
    pub hour: u32,
    pub minute: u32,
    pub second: u32,
    pub microsecond: u32,
}

/// Whether a clock reading denotes an instant that a [`Timestamp`] can hold.
pub open spec fn reading_valid(r: ClockReading) -> bool {
    &&& 0 <= r.year <= MAX_YEAR
    &&& 1 <= r.month <= 12
    &&& 1 <= r.day <= days_in_month(r.year as int, r.month as int)
    &&& r.hour < 24
    &&& r.minute < 60
    &&& r.second < 60
    &&& r.nanosecond < 2 * NANOS_PER_SECOND
    &&& (r.nanosecond >= NANOS_PER_SECOND ==> r.second == 59)
}

/// The instant of a valid clock reading, cut to whole microseconds.
pub open spec fn reading_instant(r: ClockReading) -> Timestamp {
    Timestamp {
        year: r.year,
        month: r.month,
        day: r.day,
        hour: r.hour,
        minute: r.minute,
        second: r.second,
        microsecond: (r.nanosecond / NANOS_PER_MICRO) as u32,
    }
}

/// The stamp of an instant: `ddmmyyyy_HHMMSS_` and six digits of microseconds.
/// During a leap second the seconds read 60.
pub open spec fn stamp_text(t: Timestamp) -> Seq<char> {
    zero_padded(t.day as nat, 2) + zero_padded(t.month as nat, 2) + zero_padded(t.year as nat, 4)
        + seq!['_'] + zero_padded(t.hour as nat, 2) + zero_padded(t.minute as nat, 2)
        + zero_padded((t.second + t.microsecond / MICROS_PER_SECOND) as nat, 2) + seq!['_']
        + zero_padded((t.microsecond % MICROS_PER_SECOND) as nat, 6)
}

fn leap_year(year: i32) -> (r: bool)
    requires
        0 <= year,
    ensures
        r == is_leap_year(year as int),
{
    year % 4 == 0 && (year % 100 != 0 || year % 400 == 0)
}

fn month_length(year: i32, month: u32) -> (r: u32)
    requires
        0 <= year,
    ensures
        r == days_in_month(year as int, month as int),
{
    if month == 2 {
        if leap_year(year) {
            29
        } else {
            28
        }
    } else if month == 4 || month == 6 || month == 9 || month == 11 {
        30
    } else if 1 <= month && month <= 12 {
        31
    } else {
        0
    }
}

/// Reads the system clock in local time through `chrono::Local::now` and
/// hands out the fields of the reading through chrono's `Datelike` and
/// `Timelike` getters. Nothing is claimed of the values: the caller
/// validates them. `Local::now` panics where the system clock reads a time
/// before 1970.
#[verifier::external_body]
fn read_clock() -> ClockReading {
    let now = chrono::Local::now();
    ClockReading {
        year: now.year(),
        month: now.month(),
        day: now.day(),
        hour: now.hour(),
        minute: now.minute(),
        second: now.second(),
        nanosecond: now.nanosecond(),
    }
}

/// Formats an instant with chrono: `NaiveDate::from_ymd_opt`, then
/// `and_hms_micro_opt`, then `format` with [`STAMP_PATTERN`]. For a valid
/// instant both constructors succeed. The claim is what chrono documents for
/// the specifiers of the pattern: `%d`, `%m`, `%H`, `%M` and `%S` are two
/// digits padded with zeros, `%S` reads 60 during a leap second, `%Y` is four
/// digits padded with zeros for the years 0 to 9999, and `%6f` is the
/// microseconds of the second in six digits.
#[verifier::external_body]
fn chrono_format(stamp: &Timestamp, pattern: &str) -> (text: String)
    requires
        stamp.wf(),
        pattern@ == STAMP_PATTERN@,
    ensures
        text@ == stamp_text(*stamp),
{
    let date = chrono::NaiveDate::from_ymd_opt(stamp.year, stamp.month, stamp.day).unwrap();
    let at = date.and_hms_micro_opt(stamp.hour, stamp.minute, stamp.second, stamp.microsecond);
    at.unwrap().format(pattern).to_string()
}

impl Timestamp {
    /// The fields denote an instant of the calendar, in the years 0 to 9999.
    pub open spec fn wf(&self) -> bool {
        &&& 0 <= self.year <= MAX_YEAR
        &&& 1 <= self.month <= 12
        &&& 1 <= self.day <= days_in_month(self.year as int, self.month as int)
        &&& self.hour < 24
        &&& self.minute < 60
        &&& self.second < 60
        &&& self.microsecond < 2 * MICROS_PER_SECOND
        &&& (self.microsecond >= MICROS_PER_SECOND ==> self.second == 59)
    }

    /// Tests [`Timestamp::wf`].
    pub fn is_valid(&self) -> (r: bool)
        ensures
            r == self.wf(),
    {
        0 <= self.year && self.year <= MAX_YEAR && 1 <= self.month && self.month <= 12 && 1
            <= self.day && self.day <= month_length(self.year, self.month) && self.hour < 24
            && self.minute < 60 && self.second < 60 && self.microsecond < 2 * MICROS_PER_SECOND
            && (self.microsecond < MICROS_PER_SECOND || self.second == 59)
    }

    /// Builds an instant from its fields, if they denote one.
    pub fn new(
        year: i32,
        month: u32,
        day: u32,
        hour: u32,
        minute: u32,
        second: u32,
        microsecond: u32,
    ) -> (r: Option<Timestamp>)
        ensures
            r == if (Timestamp { year, month, day, hour, minute, second, microsecond }).wf() {
                Some(Timestamp { year, month, day, hour, minute, second, microsecond })
            } else {
                None
            },
    {
        let t = Timestamp { year, month, day, hour, minute, second, microsecond };
        if t.is_valid() {
            Some(t)
        } else {
            None
        }
    }

    /// The instant of a clock reading, cut to whole microseconds; `None` for
    /// a reading that denotes no instant of the years 0 to 9999.
    pub fn from_reading(reading: &ClockReading) -> (r: Option<Timestamp>)
        ensures
            r == if reading_valid(*reading) {
                Some(reading_instant(*reading))
            } else {
                None
            },
            r matches Some(t) ==> t.wf(),
    {
        let t = Timestamp {
            year: reading.year,
            month: reading.month,
            day: reading.day,
            hour: reading.hour,
            minute: reading.minute,
            second: reading.second,
            microsecond: reading.nanosecond / NANOS_PER_MICRO,
        };
        if t.is_valid() {
            Some(t)
        } else {
            None
        }
    }

    /// The instant of a clock reading, cut to whole microseconds, or
    /// `fallback` for a reading that denotes no instant of the years 0 to
    /// 9999.
    pub fn reading_or(reading: &ClockReading, fallback: Timestamp) -> (r: Timestamp)
        requires
            fallback.wf(),
        ensures
            r == if reading_valid(*reading) {
                reading_instant(*reading)
            } else {
                fallback
            },
            r.wf(),
    {
        match Timestamp::from_reading(reading) {
            Some(t) => t,
            None => fallback,
        }
    }

    /// The current local time. Whatever the clock reports, an instant that
    /// comes back is valid; what comes back for each reading of the clock is
    /// what [`Timestamp::from_reading`] says.
    ///
    /// # Panics
    ///
    /// The clock is read through chrono, which panics where the system clock
    /// reads a time before 1970.
    pub fn now() -> (r: Option<Timestamp>)
        ensures
            r matches Some(t) ==> t.wf(),
    {
        let reading = read_clock();
        Timestamp::from_reading(&reading)
    }

    /// The current local time, or `fallback` where the clock reports no
    /// instant that can be held; what comes back for each reading of the
    /// clock is what [`Timestamp::reading_or`] says.
    ///
    /// # Panics
    ///
    /// The clock is read through chrono, which panics where the system clock
    /// reads a time before 1970.
    pub fn now_or(fallback: Timestamp) -> (r: Timestamp)
        requires
            fallback.wf(),
        ensures
            r.wf(),
    {
        let reading = read_clock();
        Timestamp::reading_or(&reading, fallback)
    }

    /// The stamp of this instant.
    pub fn render(&self) -> (text: String)
        requires
            self.wf(),
        ensures
            text@ == stamp_text(*self),
            text@.len() == STAMP_LEN,
    {
        proof {
            lemma_stamp_len(*self);
        }
        chrono_format(self, STAMP_PATTERN)
    }
}

/// A zero-padded number has exactly as many characters as asked for.
pub proof fn lemma_zero_padded_len(value: nat, width: nat)
    ensures
        zero_padded(value, width).len() == width,
    decreases width,
{
    if width > 0 {
        lemma_zero_padded_len(value / 10, (width - 1) as nat);
    }
}

/// Two numbers below ten to the `width` that read the same when padded to
/// `width` digits are the same number.
pub proof fn lemma_zero_padded_injective(a: nat, b: nat, width: nat)
    requires
        a < pow10(width),
        b < pow10(width),
        zero_padded(a, width) == zero_padded(b, width),
    ensures
        a == b,
    decreases width,
{
    if width > 0 {
        let w = (width - 1) as nat;
        let pa = zero_padded(a / 10, w);
        let pb = zero_padded(b / 10, w);
        let da = digit_char((a % 10) as int);
        let db = digit_char((b % 10) as int);
        lemma_zero_padded_len(a / 10, w);
        lemma_zero_padded_len(b / 10, w);
        assert(pa.push(da).last() == da);
        assert(pa.push(da).drop_last() == pa);
        assert(pb.push(db).drop_last() == pb);
        lemma_zero_padded_injective(a / 10, b / 10, w);
    }
}

/// Every stamp has [`STAMP_LEN`] characters.
pub proof fn lemma_stamp_len(t: Timestamp)
    ensures
        stamp_text(t).len() == STAMP_LEN,
{
    lemma_zero_padded_len(t.day as nat, 2);
    lemma_zero_padded_len(t.month as nat, 2);
    lemma_zero_padded_len(t.year as nat, 4);
    lemma_zero_padded_len(t.hour as nat, 2);
    lemma_zero_padded_len(t.minute as nat, 2);
    lemma_zero_padded_len((t.second + t.microsecond / MICROS_PER_SECOND) as nat, 2);
    lemma_zero_padded_len((t.microsecond % MICROS_PER_SECOND) as nat, 6);
}

/// Two valid instants with the same stamp are the same instant.
pub proof fn lemma_stamp_injective(s: Timestamp, t: Timestamp)
    requires
        s.wf(),
        t.wf(),
        stamp_text(s) == stamp_text(t),
    ensures
        s == t,
{
    let us = seq!['_'];
    let (s1, t1) = (zero_padded(s.day as nat, 2), zero_padded(t.day as nat, 2));
    let (s2, t2) = (zero_padded(s.month as nat, 2), zero_padded(t.month as nat, 2));
    let (s3, t3) = (zero_padded(s.year as nat, 4), zero_padded(t.year as nat, 4));
    let (s4, t4) = (zero_padded(s.hour as nat, 2), zero_padded(t.hour as nat, 2));
    let (s5, t5) = (zero_padded(s.minute as nat, 2), zero_padded(t.minute as nat, 2));
    let ss = (s.second + s.microsecond / MICROS_PER_SECOND) as nat;
    let ts = (t.second + t.microsecond / MICROS_PER_SECOND) as nat;
    let sf = (s.microsecond % MICROS_PER_SECOND) as nat;
    let tf = (t.microsecond % MICROS_PER_SECOND) as nat;
    let (s6, t6) = (zero_padded(ss, 2), zero_padded(ts, 2));
    let (s7, t7) = (zero_padded(sf, 6), zero_padded(tf, 6));
    lemma_zero_padded_len(s.day as nat, 2);
    lemma_zero_padded_len(t.day as nat, 2);
    lemma_zero_padded_len(s.month as nat, 2);
    lemma_zero_padded_len(t.month as nat, 2);
    lemma_zero_padded_len(s.year as nat, 4);
    lemma_zero_padded_len(t.year as nat, 4);
    lemma_zero_padded_len(s.hour as nat, 2);
    lemma_zero_padded_len(t.hour as nat, 2);
    lemma_zero_padded_len(s.minute as nat, 2);
    lemma_zero_padded_len(t.minute as nat, 2);
    lemma_zero_padded_len(ss, 2);
    lemma_zero_padded_len(ts, 2);
    lemma_zero_padded_len(sf, 6);
    lemma_zero_padded_len(tf, 6);
    let (sa, ta) = (s1 + s2, t1 + t2);
    let (sb, tb) = (sa + s3, ta + t3);
    let (sc, tc) = (sb + us, tb + us);
    let (sd, td) = (sc + s4, tc + t4);
    let (se, te) = (sd + s5, td + t5);
    let (sg, tg) = (se + s6, te + t6);
    lemma_split_equal(sg + us, s7, tg + us, t7);
    lemma_split_equal(sg, us, tg, us);
    lemma_split_equal(se, s6, te, t6);
    lemma_split_equal(sd, s5, td, t5);
    lemma_split_equal(sc, s4, tc, t4);
    lemma_split_equal(sb, us, tb, us);
    lemma_split_equal(sa, s3, ta, t3);
    lemma_split_equal(s1, s2, t1, t2);
    assert(pow10(2) == 100 && pow10(4) == 10_000 && pow10(6) == 1_000_000) by {
        reveal_with_fuel(pow10, 7);
    }
    lemma_zero_padded_injective(s.day as nat, t.day as nat, 2);
    lemma_zero_padded_injective(s.month as nat, t.month as nat, 2);
    lemma_zero_padded_injective(s.year as nat, t.year as nat, 4);
    lemma_zero_padded_injective(s.hour as nat, t.hour as nat, 2);
    lemma_zero_padded_injective(s.minute as nat, t.minute as nat, 2);
    lemma_zero_padded_injective(ss, ts, 2);
    lemma_zero_padded_injective(sf, tf, 6);
}

} // verus!
