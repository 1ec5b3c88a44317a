//! UTC timestamps
//!
//! A timestamp is a whole number of seconds since the UNIX epoch plus a
//! nanosecond part. The range is that of `chrono::DateTime<Utc>`: from
//! January 1 of year -262143 to December 31 of year 262142. Calendar
//! fields (year, month, day) come from `chrono`; everything else is plain
//! arithmetic on the timestamp.

use chrono::Datelike;
use vstd::string::StrSliceExecFns;
use vstd::prelude::*;
use crate::text::{decimal, decimal_padded, push_decimal, push_decimal_padded};

verus! {

/// The earliest representable second (-262143-01-01T00:00:00Z)
pub const MIN_TIMESTAMP: i64 = -8334601315200;

/// The latest representable second (+262142-12-31T23:59:59Z)
pub const MAX_TIMESTAMP: i64 = 8210266876799;

/// Nanoseconds per second
pub const NANOS_PER_SEC: i64 = 1_000_000_000;

/// Seconds per day
pub const SECS_PER_DAY: i64 = 86400;

/// The calendar date (year, month, day, zero-based day of the year) that
/// `chrono` assigns to a day number counted from 1970-01-01
pub uninterp spec fn civil_date(days: int) -> (int, int, int, int);

/// The day number (counted from 1970-01-01) that `chrono` parses from a
/// `%F` (YYYY-MM-DD) date string, if any
pub uninterp spec fn iso_date_days(s: Seq<char>) -> Option<int>;

/// The (seconds, nanoseconds) timestamp that `chrono` parses from an RFC 3339
/// date-time string, if any
pub uninterp spec fn rfc3339_timestamp(s: Seq<char>) -> Option<(int, int)>;

/// The integer that std's `i64::from_str` parses from a string, if any
pub uninterp spec fn std_parse_i64(s: Seq<char>) -> Option<int>;

/// The `chrono` parse error type
#[verifier::external_type_specification]
#[verifier::external_body]
pub struct ExChronoParseError(chrono::ParseError);

/// The std integer parse error type
#[verifier::external_type_specification]
#[verifier::external_body]
pub struct ExParseIntError(core::num::ParseIntError);

/// Computes the calendar date of a day number with
/// `chrono::NaiveDate::from_num_days_from_ce_opt`.
///
/// Claims of `chrono`: for a day in the supported range the date exists; its
/// month lies in 1..=12, its day in 1..=31 and its zero-based ordinal in
/// 0..=365. The calendar itself is left to the name [civil_date].
#[verifier::external_body]
fn chrono_civil_date(days: i64) -> (r: (i32, u32, u32, u32))
    requires
        MIN_TIMESTAMP / SECS_PER_DAY <= days <= MAX_TIMESTAMP / SECS_PER_DAY,
    ensures
        (r.0 as int, r.1 as int, r.2 as int, r.3 as int) == civil_date(days as int),
        1 <= r.1 <= 12,
        1 <= r.2 <= 31,
        r.3 <= 365,
{
    let d = chrono::NaiveDate::from_num_days_from_ce_opt((days + 719163) as i32).unwrap();
    (d.year(), d.month(), d.day(), d.ordinal0())
}

/// Parses a `%F` date with `chrono::NaiveDate::parse_from_str`, giving its
/// day number counted from 1970-01-01.
///
/// Claims of `chrono`: the outcome depends on the string alone, and a parsed
/// date lies in chrono's supported range. The accepted grammar is left to
/// the name [iso_date_days].
#[verifier::external_body]
fn chrono_parse_iso_date(s: &str) -> (r: Result<i64, chrono::ParseError>)
    ensures
        r is Ok <==> iso_date_days(s@) is Some,
        r matches Ok(d) ==> iso_date_days(s@) == Some(d as int) && MIN_TIMESTAMP / SECS_PER_DAY <= d
            <= MAX_TIMESTAMP / SECS_PER_DAY,
{
    match chrono::NaiveDate::parse_from_str(s, "%F") {
        Ok(d) => Ok(d.and_hms_opt(0, 0, 0).unwrap().and_utc().timestamp().div_euclid(86400)),
        Err(e) => Err(e),
    }
}

/// Parses an RFC 3339 date-time with `chrono::DateTime::parse_from_rfc3339`,
/// converted to UTC.
///
/// Claims of `chrono`: the outcome depends on the string alone; a parsed
/// time lies in the supported range. A leap second (second 60) is given as
/// second 59 with a full extra second of nanoseconds, so the nanoseconds
/// stay below two billion, and reach one billion only at a second 59 (the
/// offsets of RFC 3339 are whole minutes). The grammar is left to the name
/// [rfc3339_timestamp].
#[verifier::external_body]
fn chrono_parse_rfc3339(s: &str) -> (r: Result<(i64, u32), chrono::ParseError>)
    ensures
        r is Ok <==> rfc3339_timestamp(s@) is Some,
        r matches Ok(t) ==> rfc3339_timestamp(s@) == Some((t.0 as int, t.1 as int))
            && MIN_TIMESTAMP <= t.0 <= MAX_TIMESTAMP && t.1 < 2 * NANOS_PER_SEC
            && (t.1 >= NANOS_PER_SEC ==> t.0 % 60 == 59),
{
    match chrono::DateTime::parse_from_rfc3339(s) {
        Ok(d) => {
            let u: chrono::DateTime<chrono::Utc> = d.into();
            Ok((u.timestamp(), u.timestamp_subsec_nanos()))
        },
        Err(e) => Err(e),
    }
}

/// Parses a decimal integer with std's `i64::from_str`.
///
/// Claims of std: the outcome depends on the string alone. The grammar is
/// left to the name [std_parse_i64].
#[verifier::external_body]
fn parse_i64(s: &str) -> (r: Result<i64, core::num::ParseIntError>)
    ensures
        r is Ok <==> std_parse_i64(s@) is Some,
        r matches Ok(n) ==> std_parse_i64(s@) == Some(n as int),
{
    <i64 as core::str::FromStr>::from_str(s)
}

/// Errors constructing a timestamp
#[derive(Debug)]
pub enum TimeError {
    /// A date string did not parse
    Parse(chrono::ParseError),
    /// A number did not parse
    ParseNum(core::num::ParseIntError),
    /// A number of seconds outside the supported range
    UnixTimeOutOfRange(i64),
    /// A leap second (second 60), following the given second
    LeapSecond(i64),
}

/// A point in time, in UTC
#[derive(Copy, Clone, PartialEq, Eq, Debug, Hash, Structural)]
pub struct UtcTime {
    secs: i64,
    nanos: u32,
}

/// A time of day: seconds since midnight and a nanosecond part
#[derive(Copy, Clone, PartialEq, Eq, Debug, Hash, Structural)]
pub struct TimeOfDay {
    pub secs: u32,
    pub nanos: u32,
}

/// Whether `(secs, nanos)` is a timestamp in chrono's range (without leap
/// seconds)
pub open spec fn valid_timestamp(secs: int, nanos: int) -> bool {
    MIN_TIMESTAMP <= secs <= MAX_TIMESTAMP && 0 <= nanos < NANOS_PER_SEC
}

/// The day number of a second, counted from 1970-01-01 (floor division)
pub open spec fn day_of(secs: int) -> int {
    secs / (SECS_PER_DAY as int)
}

/// The second within its day (0..86400)
pub open spec fn second_of_day(secs: int) -> int {
    secs % (SECS_PER_DAY as int)
}

/// The day of the week of a day number, counted from Monday = 0
/// (1970-01-01 was a Thursday)
pub open spec fn weekday_from_monday(days: int) -> int {
    (days + 3) % 7
}

/// The number of days back to the most recent Friday strictly before a day
/// with the given weekday (a whole week back from a Friday)
pub open spec fn days_since_friday(weekday: int) -> int {
    if weekday == 4 { 7 } else { (weekday - 4 + 7) % 7 }
}

/// Whether a year of the Gregorian calendar is a leap year
pub open spec fn is_leap_year(year: int) -> bool {
    (year % 4 == 0 && year % 100 != 0) || year % 400 == 0
}

/// The zero-based ordinal of the first Sunday on or after a day of a year,
/// given the ordinal of that day and the day number of the year's first day
pub open spec fn first_sunday_from(jan1: int, ordinal0: int) -> int {
    ordinal0 + (6 - weekday_from_monday(jan1 + ordinal0) + 7) % 7
}

/// The New York daylight-saving window of a year, by the US rule: daylight
/// time from the second Sunday of March to the first Sunday of November.
/// The switch is taken at midnight UTC, when the market is closed. Given
/// as zero-based ordinals: days before the first bound, or from the second
/// bound on, are in standard time.
pub open spec fn dst_window(year: int, jan1: int) -> (int, int) {
    let leap = if is_leap_year(year) { 1int } else { 0int };
    (first_sunday_from(jan1, 59 + leap) + 7, first_sunday_from(jan1, 304 + leap))
}

/// The offset of New York from UTC, in hours west, on a date given by its
/// year, zero-based ordinal and day number
pub open spec fn new_york_offset_hours(year: int, ordinal0: int, day: int) -> int {
    let w = dst_window(year, day - ordinal0);
    if ordinal0 < w.0 || ordinal0 >= w.1 { 5 } else { 4 }
}

impl UtcTime {
    #[verifier::type_invariant]
    spec fn inv(self) -> bool {
        valid_timestamp(self.secs as int, self.nanos as int)
    }

    /// Whole seconds since the epoch
    pub closed spec fn spec_secs(self) -> int {
        if valid_timestamp(self.secs as int, self.nanos as int) { self.secs as int } else { 0 }
    }

    /// The nanosecond part
    pub closed spec fn spec_nanos(self) -> int {
        if valid_timestamp(self.secs as int, self.nanos as int) { self.nanos as int } else { 0 }
    }

    /// Every timestamp lies in the supported range
    pub proof fn lemma_valid(t: UtcTime)
        ensures
            valid_timestamp(t.spec_secs(), t.spec_nanos()),
    {
    }

    /// The timestamp moved by a signed number of seconds
    pub closed spec fn spec_plus_seconds(self, secs: int) -> UtcTime {
        UtcTime { secs: (self.spec_secs() + secs) as i64, nanos: self.spec_nanos() as u32 }
    }

    /// The timestamp at `n` o'clock sharp on the same day
    pub closed spec fn spec_at_hour(self, n: int) -> UtcTime {
        UtcTime { secs: (day_of(self.spec_secs()) * SECS_PER_DAY + n * 3600) as i64, nanos: 0 }
    }

    /// The day number of the timestamp, counted from 1970-01-01
    pub open spec fn spec_day(self) -> int {
        day_of(self.spec_secs())
    }

    /// Whether `self` is strictly earlier than `other`
    pub open spec fn before(self, other: UtcTime) -> bool {
        self@ < other@
    }

    /// Builds a timestamp from seconds and nanoseconds, if in range
    pub fn from_parts(secs: i64, nanos: u32) -> (r: Option<UtcTime>)
        ensures
            r is Some <==> valid_timestamp(secs as int, nanos as int),
            r matches Some(t) ==> t.spec_secs() == secs && t.spec_nanos() == nanos,
    {
        if MIN_TIMESTAMP <= secs && secs <= MAX_TIMESTAMP && (nanos as i64) < NANOS_PER_SEC {
            Some(UtcTime { secs, nanos })
        } else {
            None
        }
    }

    /// Seconds since the epoch
    pub fn timestamp(&self) -> (s: i64)
        ensures
            s == self.spec_secs(),
    {
        proof {
            use_type_invariant(self);
        }
        self.secs
    }

    /// Parses a UNIX timestamp from an integer number of seconds
    pub fn from_unix_i64(n: i64) -> (r: Result<Self, TimeError>)
        ensures
            r is Ok <==> MIN_TIMESTAMP <= n <= MAX_TIMESTAMP,
            r matches Ok(t) ==> t.spec_secs() == n && t.spec_nanos() == 0,
            r matches Err(e) ==> e == TimeError::UnixTimeOutOfRange(n),
    {
        match UtcTime::from_parts(n, 0) {
            Some(t) => Ok(t),
            None => Err(TimeError::UnixTimeOutOfRange(n)),
        }
    }

    /// Parses a UNIX timestamp from an integer number of nanoseconds
    ///
    /// Negative timestamps that are not whole seconds are refused (the
    /// nanosecond part would be negative).
    pub fn from_unix_nanos_i64(n: i64) -> (r: Result<Self, TimeError>)
        ensures
            r is Ok <==> (n >= 0 || n % 1_000_000_000 == 0) && MIN_TIMESTAMP <= n / 1_000_000_000
                <= MAX_TIMESTAMP,
            n >= 0 ==> (r matches Ok(t) ==> t.spec_secs() == n / 1_000_000_000 && t.spec_nanos() == n
                % 1_000_000_000),
            n < 0 ==> (r matches Ok(t) ==> t.spec_secs() * 1_000_000_000 == n && t.spec_nanos() == 0),
            r matches Err(e) ==> e == TimeError::UnixTimeOutOfRange(
                (if n >= 0 { n / 1_000_000_000 } else { -((-n) / 1_000_000_000) }) as i64,
            ),
    {
        let secs: i64;
        let rem: i64;
        if n >= 0 {
            secs = n / NANOS_PER_SEC;
            rem = n % NANOS_PER_SEC;
        } else {
            // Rust's `/` and `%` round toward zero
            let pos: i64 = if n == i64::MIN { i64::MAX } else { -n };
            let q: i64 = pos / NANOS_PER_SEC;
            let r: i64 = pos % NANOS_PER_SEC;
            proof {
                assert(n == i64::MIN ==> (i64::MAX as int) / 1_000_000_000 == (-(i64::MIN as int)) / 1_000_000_000);
                assert(n == i64::MIN ==> (-(i64::MIN as int)) % 1_000_000_000 != 0);
            }
            secs = -q;
            rem = if n == i64::MIN { 1 } else { r };
        }
        if rem == 0 || n >= 0 {
            match UtcTime::from_parts(secs, rem as u32) {
                Some(t) => Ok(t),
                None => Err(TimeError::UnixTimeOutOfRange(secs)),
            }
        } else {
            Err(TimeError::UnixTimeOutOfRange(secs))
        }
    }

    /// Parses a UNIX timestamp from a decimal-string encoded number of seconds
    pub fn from_unix_str(n: &str) -> (r: Result<Self, TimeError>)
        ensures
            r is Ok <==> (std_parse_i64(n@) matches Some(v) && MIN_TIMESTAMP <= v <= MAX_TIMESTAMP),
            r matches Ok(t) ==> Some(t.spec_secs()) == std_parse_i64(n@) && t.spec_nanos() == 0,
    {
        match parse_i64(n) {
            Ok(i) => UtcTime::from_unix_i64(i),
            Err(e) => Err(TimeError::ParseNum(e)),
        }
    }

    /// Parses the date embedded in an option expiry (e.g. 2024-01-24C50000),
    /// giving 21:00 UTC on that date
    pub fn parse_option_expiry(s: &str) -> (r: Result<Self, TimeError>)
        requires
            s@.len() >= 10,
            vstd::string::is_ascii(s),
        ensures
            r is Ok <==> iso_date_days(s@.take(10)) is Some,
            r matches Ok(t) ==> Some(t.spec_day()) == iso_date_days(s@.take(10))
                && second_of_day(t.spec_secs()) == 21 * 3600 && t.spec_nanos() == 0,
    {
        let date = s.substring_ascii(0, 10);
        match chrono_parse_iso_date(date) {
            Ok(days) => {
                let secs = days * SECS_PER_DAY + 21 * 3600;
                Ok(UtcTime { secs, nanos: 0 })
            },
            Err(e) => Err(TimeError::Parse(e)),
        }
    }

    /// Parses an RFC 3339 date-time, as given by the Coinbase API. A leap
    /// second (second 60) is refused: a time here has less than a second of
    /// nanoseconds.
    pub fn parse_coinbase(s: &str) -> (r: Result<Self, TimeError>)
        ensures
            r is Ok <==> (rfc3339_timestamp(s@) matches Some(t) && t.1 < NANOS_PER_SEC),
            r matches Ok(t) ==> rfc3339_timestamp(s@) == Some((t.spec_secs(), t.spec_nanos())),
            r matches Err(TimeError::LeapSecond(n)) ==> rfc3339_timestamp(s@) matches Some(t) && t.0 == n,
    {
        match chrono_parse_rfc3339(s) {
            Ok(t) => {
                if t.1 >= 1_000_000_000 {
                    Err(TimeError::LeapSecond(t.0))
                } else {
                    Ok(UtcTime { secs: t.0, nanos: t.1 })
                }
            },
            Err(e) => Err(TimeError::Parse(e)),
        }
    }

    /// The calendar date (year, month, day, zero-based ordinal)
    pub open spec fn spec_date(self) -> (int, int, int, int) {
        civil_date(self.spec_day())
    }

    /// The day number, counted from 1970-01-01
    pub fn day_number(&self) -> (d: i64)
        ensures
            d == self.spec_day(),
            MIN_TIMESTAMP / SECS_PER_DAY <= d <= MAX_TIMESTAMP / SECS_PER_DAY,
    {
        proof {
            use_type_invariant(self);
        }
        floor_div(self.secs, SECS_PER_DAY)
    }

    /// The second of the day (0..86400)
    pub fn second_of_day(&self) -> (s: u32)
        ensures
            s == second_of_day(self.spec_secs()),
            s < 86400,
    {
        proof {
            use_type_invariant(self);
        }
        let d = floor_div(self.secs, SECS_PER_DAY);
        (self.secs - d * SECS_PER_DAY) as u32
    }

    /// Accessor for the year
    pub fn year(&self) -> (y: i32)
        ensures
            y == self.spec_date().0,
    {
        chrono_civil_date(self.day_number()).0
    }

    /// Accessor for the month (1..=12)
    pub fn month(&self) -> (m: u32)
        ensures
            m == self.spec_date().1,
            1 <= m <= 12,
    {
        chrono_civil_date(self.day_number()).1
    }

    /// Accessor for the day of the month (1..=31)
    pub fn day(&self) -> (d: u32)
        ensures
            d == self.spec_date().2,
            1 <= d <= 31,
    {
        chrono_civil_date(self.day_number()).2
    }

    /// Accessor for the zero-based day of the year (0..=365)
    pub fn ordinal0(&self) -> (d: u32)
        ensures
            d == self.spec_date().3,
            d <= 365,
    {
        chrono_civil_date(self.day_number()).3
    }

    /// Accessor for the hour
    pub fn hour(&self) -> (h: u32)
        ensures
            h == second_of_day(self.spec_secs()) / 3600,
            h < 24,
    {
        self.second_of_day() / 3600
    }

    /// Accessor for the minute
    pub fn minute(&self) -> (m: u32)
        ensures
            m == second_of_day(self.spec_secs()) % 3600 / 60,
            m < 60,
    {
        self.second_of_day() % 3600 / 60
    }

    /// Accessor for the second
    pub fn second(&self) -> (s: u32)
        ensures
            s == second_of_day(self.spec_secs()) % 60,
            s < 60,
    {
        self.second_of_day() % 60
    }

    /// Accessor for the sub-second part
    pub fn nanosecond(&self) -> (n: u32)
        ensures
            n == self.spec_nanos(),
            n < NANOS_PER_SEC,
    {
        proof {
            use_type_invariant(self);
        }
        self.nanos
    }

    /// The day of the week, counted from Monday = 0
    pub fn weekday_from_monday(&self) -> (w: u32)
        ensures
            w == weekday_from_monday(self.spec_day()),
            w < 7,
    {
        let d = self.day_number();
        let w = floor_mod(d + 3, 7);
        w as u32
    }

    /// Returns the time of day in New York
    ///
    /// New York is five hours behind UTC (EST), and four (EDT) while
    /// daylight saving time lasts: by the US rule, from the second Sunday of
    /// March to the first Sunday of November. The switch is taken to happen
    /// at midnight UTC of those days, and the rule is applied to every year.
    pub fn new_york_time(&self) -> (t: TimeOfDay)
        ensures
            t.secs == second_of_day(self.spec_secs() - new_york_offset_hours(self.spec_date().0, self.spec_date().3, self.spec_day()) * 3600),
            t.nanos == self.spec_nanos(),
    {
        proof {
            use_type_invariant(self);
        }
        let year = self.year();
        let ordinal0 = self.ordinal0();
        let day = self.day_number();
        let w = dst_window_exec(year, day - ordinal0 as i64);
        let west_hours: i64 = if (ordinal0 as i64) < w.0 || (ordinal0 as i64) >= w.1 { 5 } else { 4 };
        let local = self.secs - west_hours * 3600;
        let d = floor_div(local, SECS_PER_DAY);
        TimeOfDay { secs: (local - d * SECS_PER_DAY) as u32, nanos: self.nanos }
    }

    /// Finds the most recent Friday before the given date, at the same time
    /// of day. On a Friday, returns a week earlier.
    pub fn last_friday(&self) -> (r: Self)
        requires
            self.spec_secs() - days_since_friday(weekday_from_monday(self.spec_day())) * SECS_PER_DAY
                >= MIN_TIMESTAMP,
        ensures
            r.spec_secs() == self.spec_secs() - days_since_friday(weekday_from_monday(self.spec_day())) * SECS_PER_DAY,
            r.spec_nanos() == self.spec_nanos(),
    {
        proof {
            use_type_invariant(self);
        }
        let w = self.weekday_from_monday();
        let offset: i64 = if w == 4 { 7 } else { ((w + 7 - 4) % 7) as i64 };
        UtcTime { secs: self.secs - offset * SECS_PER_DAY, nanos: self.nanos }
    }

    /// Returns the timestamp with the time of day set to `n` o'clock sharp
    pub fn forced_to_hour(&self, n: u32) -> (r: Self)
        requires
            n < 24,
        ensures
            r == self.spec_at_hour(n as int),
            r.spec_day() == self.spec_day(),
            second_of_day(r.spec_secs()) == n * 3600,
            r.spec_nanos() == 0,
    {
        proof {
            use_type_invariant(self);
        }
        let d = self.day_number();
        UtcTime { secs: d * SECS_PER_DAY + (n as i64) * 3600, nanos: 0 }
    }

    /// The signed number of nanoseconds from `other` to `self`
    pub fn nanos_since(&self, other: &UtcTime) -> (d: i128)
        ensures
            d == self@ - other@,
    {
        proof {
            use_type_invariant(self);
            use_type_invariant(other);
            assert((self.secs - other.secs) * NANOS_PER_SEC <= 20000000000000 * 1000000000) by (nonlinear_arith)
                requires -20000000000000 <= self.secs - other.secs <= 20000000000000;
            assert((self.secs - other.secs) * NANOS_PER_SEC >= -20000000000000 * 1000000000) by (nonlinear_arith)
                requires -20000000000000 <= self.secs - other.secs <= 20000000000000;
        }
        (self.secs as i128 - other.secs as i128) * (NANOS_PER_SEC as i128) + (self.nanos as i128 - other.nanos as i128)
    }

    /// The timestamp moved by a signed number of seconds
    pub fn plus_seconds(&self, secs: i64) -> (r: Self)
        requires
            MIN_TIMESTAMP <= self.spec_secs() + secs <= MAX_TIMESTAMP,
        ensures
            r == self.spec_plus_seconds(secs as int),
            r.spec_secs() == self.spec_secs() + secs,
            r.spec_nanos() == self.spec_nanos(),
            r@ == self@ + secs * NANOS_PER_SEC,
    {
        proof {
            use_type_invariant(self);
        }
        UtcTime { secs: self.secs + secs, nanos: self.nanos }
    }

    /// Whether `self` is strictly earlier than `other`
    pub fn lt(&self, other: &UtcTime) -> (b: bool)
        ensures
            b == (self@ < other@),
    {
        proof {
            use_type_invariant(self);
            use_type_invariant(other);
        }
        self.secs < other.secs || (self.secs == other.secs && self.nanos < other.nanos)
    }

    /// Whether `self` is at most `other`
    pub fn le(&self, other: &UtcTime) -> (b: bool)
        ensures
            b == (self@ <= other@),
    {
        !other.lt(self)
    }
}

impl View for UtcTime {
    type V = int;

    /// Nanoseconds since the epoch
    open spec fn view(&self) -> int {
        self.spec_secs() * NANOS_PER_SEC + self.spec_nanos()
    }
}

/// The first Sunday on or after a day of a year ([first_sunday_from])
fn first_sunday_exec(jan1: i64, ordinal0: i64) -> (r: i64)
    requires
        -1_000_000_000 <= jan1 <= 1_000_000_000,
        0 <= ordinal0 <= 366,
    ensures
        r == first_sunday_from(jan1 as int, ordinal0 as int),
{
    let w = floor_mod(jan1 + ordinal0 + 3, 7);
    ordinal0 + (6 - w + 7) % 7
}

/// The New York daylight-saving window of a year ([dst_window])
pub fn dst_window_exec(year: i32, jan1: i64) -> (w: (i64, i64))
    requires
        -1_000_000_000 <= jan1 <= 1_000_000_000,
    ensures
        (w.0 as int, w.1 as int) == dst_window(year as int, jan1 as int),
{
    let leap: i64 = if (year % 4 == 0 && year % 100 != 0) || year % 400 == 0 { 1 } else { 0 };
    proof {
        assert(((year % 4 == 0 && year % 100 != 0) || year % 400 == 0) == is_leap_year(year as int));
    }
    (first_sunday_exec(jan1, 59 + leap) + 7, first_sunday_exec(jan1, 304 + leap))
}

/// Floor division and modulus (the quotient rounds toward negative infinity,
/// the remainder lies in `0..b`)
pub fn floor_div_mod(a: i64, b: i64) -> (qr: (i64, i64))
    requires
        b > 0,
    ensures
        qr.0 == a / b,
        qr.1 == a % b,
        0 <= qr.1 < b,
{
    if a >= 0 {
        let q = a / b;
        let r = a % b;
        proof {
            vstd::arithmetic::div_mod::lemma_fundamental_div_mod(a as int, b as int);
        }
        (q, r)
    } else {
        let p: i64 = -(a + 1);
        let q1 = p / b;
        let r1 = p % b;
        proof {
            vstd::arithmetic::div_mod::lemma_fundamental_div_mod(p as int, b as int);
            assert(p == b * (p / b) + p % b);
            assert(q1 == p / b && r1 == p % b);
            assert(0 <= r1 < b);
            assert(q1 >= 0) by (nonlinear_arith) requires p >= 0, b > 0, q1 == p / b;
            assert(q1 <= p) by (nonlinear_arith) requires p >= 0, b > 0, q1 == p / b;
            assert(a == (-q1 - 1) * b + (b - 1 - r1)) by (nonlinear_arith)
                requires p == b * q1 + r1, a == -(p + 1);
            vstd::arithmetic::div_mod::lemma_fundamental_div_mod_converse(a as int, b as int, -q1 - 1, b - 1 - r1);
        }
        (-q1 - 1, b - 1 - r1)
    }
}

/// Floor division (rounding toward negative infinity)
pub fn floor_div(a: i64, b: i64) -> (q: i64)
    requires
        b > 0,
    ensures
        q == a / b,
{
    floor_div_mod(a, b).0
}

/// Floor modulus (always in `0..b`)
pub fn floor_mod(a: i64, b: i64) -> (r: i64)
    requires
        b > 0,
    ensures
        r == a % b,
        0 <= r < b,
{
    floor_div_mod(a, b).1
}

/// Whether the stock market in New York is open: from 9:30 to 16:00 local time
pub open spec fn market_open_at(t: TimeOfDay) -> bool {
    9 * 3600 + 30 * 60 <= t.secs < 16 * 3600
}

/// The market is open from 09:30 New York time up to, but not including,
/// 16:00: open all through the trading day, closed in the hours before and
/// after
pub proof fn law_market_hours(t: TimeOfDay)
    ensures
        market_open_at(t) <==> (34_200 <= t.secs && t.secs < 57_600),
{
}

/// Whether the market is open at the given time
pub fn market_is_open(now: &UtcTime) -> (b: bool)
    ensures
        b == market_open_at(TimeOfDay {
            secs: second_of_day(now.spec_secs() - new_york_offset_hours(now.spec_date().0, now.spec_date().3, now.spec_day()) * 3600) as u32,
            nanos: now.spec_nanos() as u32,
        }),
{
    let nyt = now.new_york_time();
    9 * 3600 + 30 * 60 <= nyt.secs && nyt.secs < 16 * 3600
}

/// A year as `%Y` writes it: four digits, zero-padded, for years 0 to 9999;
/// otherwise a sign and at least four digits
pub open spec fn year_text(y: int) -> Seq<char> {
    if 0 <= y < 10000 {
        decimal_padded(y as nat, 4)
    } else if y >= 10000 {
        seq!['+'] + decimal(y as nat)
    } else {
        seq!['-'] + decimal_padded((-y) as nat, 4)
    }
}

/// The calendar date of a second since the epoch as `%F` writes it:
/// `YYYY-MM-DD`
pub open spec fn date_text_at(secs: int) -> Seq<char> {
    let d = civil_date(day_of(secs));
    year_text(d.0) + seq!['-'] + decimal_padded(d.1 as nat, 2) + seq!['-'] + decimal_padded(d.2 as nat, 2)
}

/// The calendar date of a timestamp as `%F` writes it: `YYYY-MM-DD`
pub open spec fn iso_date_text(t: UtcTime) -> Seq<char> {
    date_text_at(t.spec_secs())
}

/// Appends a year as `%Y` writes it
pub fn push_year(out: &mut Vec<char>, y: i32)
    ensures
        final(out)@ == old(out)@ + year_text(y as int),
{
    if 0 <= y && y < 10000 {
        push_decimal_padded(out, y as u128, 4);
    } else if y >= 10000 {
        out.push('+');
        push_decimal(out, y as u128);
        assert(out@ == old(out)@ + (seq!['+'] + decimal(y as nat)));
    } else {
        out.push('-');
        let mag: u128 = if y == i32::MIN { 2147483648u128 } else { (-y) as u128 };
        push_decimal_padded(out, mag, 4);
        assert(out@ == old(out)@ + (seq!['-'] + decimal_padded((-y) as nat, 4)));
    }
}

/// Appends the calendar date of `t` as `YYYY-MM-DD`
pub fn push_iso_date(out: &mut Vec<char>, t: &UtcTime)
    ensures
        final(out)@ == old(out)@ + iso_date_text(*t),
{
    let y = t.year();
    let m = t.month();
    let d = t.day();
    push_year(out, y);
    out.push('-');
    push_decimal_padded(out, m as u128, 2);
    out.push('-');
    push_decimal_padded(out, d as u128, 2);
    proof {
        let dd = t.spec_date();
        assert(out@ == old(out)@ + (year_text(dd.0) + seq!['-'] + decimal_padded(dd.1 as nat, 2) + seq!['-'] + decimal_padded(dd.2 as nat, 2)));
    }
}

/// The time of day of a second since the epoch as `%H:%M:%S` writes it
pub open spec fn hms_text_at(secs: int) -> Seq<char> {
    let sod = second_of_day(secs);
    decimal_padded((sod / 3600) as nat, 2) + seq![':'] + decimal_padded((sod % 3600 / 60) as nat, 2) + seq![':']
        + decimal_padded((sod % 60) as nat, 2)
}

/// The time of day of a timestamp as `%H:%M:%S` writes it
pub open spec fn hms_text(t: UtcTime) -> Seq<char> {
    hms_text_at(t.spec_secs())
}

/// Appends the time of day of `t` as `HH:MM:SS`
pub fn push_hms(out: &mut Vec<char>, t: &UtcTime)
    ensures
        final(out)@ == old(out)@ + hms_text(*t),
{
    let h = t.hour();
    let m = t.minute();
    let sec = t.second();
    push_decimal_padded(out, h as u128, 2);
    out.push(':');
    push_decimal_padded(out, m as u128, 2);
    out.push(':');
    push_decimal_padded(out, sec as u128, 2);
    proof {
        let sod = second_of_day(t.spec_secs());
        assert(out@ =~= old(out)@ + (decimal_padded((sod / 3600) as nat, 2) + seq![':'] + decimal_padded((sod % 3600 / 60) as nat, 2) + seq![':']
            + decimal_padded((sod % 60) as nat, 2)));
    }
}

/// The fraction of a second as chrono's display writes it: nothing for a
/// whole second, otherwise a point and three, six or nine digits, the
/// fewest that hold it
pub open spec fn frac_text(nanos: int) -> Seq<char> {
    if nanos == 0 {
        Seq::empty()
    } else if nanos % 1_000_000 == 0 {
        seq!['.'] + decimal_padded((nanos / 1_000_000) as nat, 3)
    } else if nanos % 1000 == 0 {
        seq!['.'] + decimal_padded((nanos / 1000) as nat, 6)
    } else {
        seq!['.'] + decimal_padded(nanos as nat, 9)
    }
}

/// The display of a time: `YYYY-MM-DD HH:MM:SS`, the fraction of a second,
/// and ` UTC`
pub open spec fn display_text(t: UtcTime) -> Seq<char> {
    iso_date_text(t) + seq![' '] + hms_text(t) + frac_text(t.spec_nanos()) + seq![' ', 'U', 'T', 'C']
}

impl UtcTime {
    /// Displays the time, e.g. `2024-01-08 04:07:11.750237 UTC`
    pub fn to_display_string(&self) -> (r: String)
        ensures
            r@ == display_text(*self),
    {
        proof {
            use_type_invariant(self);
        }
        let mut out: Vec<char> = Vec::new();
        push_iso_date(&mut out, self);
        out.push(' ');
        push_hms(&mut out, self);
        let n = self.nanos;
        let ghost before = out@;
        if n == 0 {
        } else if n % 1_000_000 == 0 {
            out.push('.');
            push_decimal_padded(&mut out, (n / 1_000_000) as u128, 3);
        } else if n % 1000 == 0 {
            out.push('.');
            push_decimal_padded(&mut out, (n / 1000) as u128, 6);
        } else {
            out.push('.');
            push_decimal_padded(&mut out, n as u128, 9);
        }
        assert(out@ =~= before + frac_text(self.spec_nanos()));
        out.push(' ');
        out.push('U');
        out.push('T');
        out.push('C');
        assert(out@ =~= display_text(*self));
        crate::text::string_from_chars(&out)
    }
}

/// The system clock, `std::time::SystemTime`
#[verifier::external_type_specification]
#[verifier::external_body]
pub struct ExSystemTime(std::time::SystemTime);

/// The system clock's current time, `std::time::SystemTime::now`. Nothing
/// is stated of which time it is.
#[verifier::external_body]
fn system_now() -> std::time::SystemTime {
    std::time::SystemTime::now()
}

/// The time elapsed from the UNIX epoch to `t`, by
/// `SystemTime::duration_since(UNIX_EPOCH)`; `None` where `t` lies before
/// the epoch (the call's error). Nothing is stated of the duration itself.
#[verifier::external_body]
fn since_epoch(t: &std::time::SystemTime) -> Option<core::time::Duration> {
    match t.duration_since(std::time::UNIX_EPOCH) {
        Ok(d) => Some(d),
        Err(_) => None,
    }
}

/// The whole seconds of a duration, `Duration::as_secs`
#[verifier::external_body]
fn duration_secs(d: &core::time::Duration) -> u64 {
    d.as_secs()
}

/// The fractional part of a duration in nanoseconds,
/// `Duration::subsec_nanos`, which its documentation says is below one
/// billion
#[verifier::external_body]
fn duration_subsec_nanos(d: &core::time::Duration) -> (n: u32)
    ensures
        n < NANOS_PER_SEC,
{
    d.subsec_nanos()
}

impl UtcTime {
    /// The current time, read from the system clock; `None` where the clock
    /// reads a time before the UNIX epoch or after the last supported
    /// second. Which time it is is not stated.
    pub fn now() -> (t: Option<UtcTime>)
        ensures
            t matches Some(u) ==> u.spec_secs() >= 0,
    {
        let clock = system_now();
        let d = match since_epoch(&clock) {
            Some(d) => d,
            None => return None,
        };
        let secs = duration_secs(&d);
        let nanos = duration_subsec_nanos(&d);
        if secs > MAX_TIMESTAMP as u64 {
            return None;
        }
        Some(UtcTime { secs: secs as i64, nanos })
    }
}

} // verus!
