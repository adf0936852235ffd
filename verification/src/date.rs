//! Calendar dates and instants.
//!
//! The database keeps days, the HTTP side speaks of instants. A [`Date`] is a
//! day of the proleptic Gregorian calendar, a [`Timestamp`] an instant in UTC.
//! Both cover the range that `chrono` covers; `chrono` reads, prints and
//! converts them.

use chrono::Datelike;
use vstd::prelude::*;

use crate::text::{
    decimal, digit, law_decimal_is_injective, lemma_decimal_length, lemma_text_before_common,
    lemma_text_before_parts, text_before,
};

verus! {

/// The first year that a date can have.
pub const MIN_YEAR: i32 = -262143;

/// The last year that a date can have.
pub const MAX_YEAR: i32 = 262142;

/// Midnight of the first day, in seconds since 1970-01-01T00:00:00Z.
pub const MIN_SECONDS: i64 = -8334601228800;

/// The last second of the last day, in seconds since 1970-01-01T00:00:00Z.
pub const MAX_SECONDS: i64 = 8210266876799;

/// 0000-01-01T00:00:00Z, the first second of the years of four digits.
pub const FOUR_DIGIT_FIRST: i64 = -62167219200;

/// 9999-12-31T23:59:59Z, the last second of the years of four digits.
pub const FOUR_DIGIT_LAST: i64 = 253402300799;

/// Whether `year` has a 29th of February.
pub open spec fn is_leap(year: int) -> bool {
    year % 4 == 0 && (year % 100 != 0 || year % 400 == 0)
}

/// The number of days in a month.
pub open spec fn month_length(year: int, month: int) -> int {
    if month == 2 {
        if is_leap(year) {
            29
        } else {
            28
        }
    } else if month == 4 || month == 6 || month == 9 || month == 11 {
        30
    } else {
        31
    }
}

/// Whether a year, a month and a day make a date.
pub open spec fn is_date(year: int, month: int, day: int) -> bool {
    &&& MIN_YEAR <= year <= MAX_YEAR
    &&& 1 <= month <= 12
    &&& 1 <= day <= month_length(year, month)
}

/// The number of days from the start of `year` to the start of `month`.
pub open spec fn days_before_month(year: int, month: int) -> int
    decreases month,
{
    if month <= 1 {
        0
    } else {
        days_before_month(year, month - 1) + month_length(year, month - 1)
    }
}

/// The number of days from 0001-01-01 to the first of January of `year`.
pub open spec fn days_before_year(year: int) -> int {
    let y = year - 1;
    365 * y + y / 4 - y / 100 + y / 400
}

/// The number of a day, where 0001-01-01 is day 1.
pub open spec fn day_number(year: int, month: int, day: int) -> int {
    days_before_year(year) + days_before_month(year, month) + day
}

/// The number of the day 1970-01-01.
pub open spec fn epoch_day() -> int {
    719163
}

/// The number of the day that holds an instant.
pub open spec fn day_of_seconds(seconds: int) -> int {
    seconds / 86400 + epoch_day()
}

/// A natural number under 100, with two digits.
pub open spec fn two_digits(n: int) -> Seq<char> {
    seq![digit((n / 10) as nat), digit((n % 10) as nat)]
}

/// A natural number under 10000, with four digits.
pub open spec fn four_digits(n: int) -> Seq<char> {
    two_digits(n / 100) + two_digits(n % 100)
}

/// A year: four digits, or a sign and at least four digits.
pub open spec fn year_text(year: int) -> Seq<char> {
    if 0 <= year <= 9999 {
        four_digits(year)
    } else {
        let size = if year < 0 {
            -year
        } else {
            year
        };
        seq![
            if year < 0 {
                '-'
            } else {
                '+'
            },
        ] + (if size <= 9999 {
            four_digits(size)
        } else {
            decimal(size as nat)
        })
    }
}

/// A date in the form `YYYY-MM-DD`.
pub open spec fn ymd_text(year: int, month: int, day: int) -> Seq<char> {
    year_text(year) + seq!['-'] + two_digits(month) + seq!['-'] + two_digits(day)
}

/// `n` with `width` digits, the last ones where it has more.
pub open spec fn padded(n: int, width: nat) -> Seq<char>
    decreases width,
{
    if width == 0 {
        seq![]
    } else {
        padded(n / 10, (width - 1) as nat).push(digit((n % 10) as nat))
    }
}

/// A part of a second: nothing, or a point and 3, 6 or 9 digits, as few as
/// show it in full.
pub open spec fn fraction_text(nanos: int) -> Seq<char> {
    if nanos == 0 {
        seq![]
    } else if nanos % 1_000_000 == 0 {
        seq!['.'] + padded(nanos / 1_000_000, 3)
    } else if nanos % 1_000 == 0 {
        seq!['.'] + padded(nanos / 1_000, 6)
    } else {
        seq!['.'] + padded(nanos, 9)
    }
}

/// A time of day in the form `HH:MM:SS`. A leap second is second 60.
pub open spec fn clock_text(second_of_day: int, leap: bool) -> Seq<char> {
    two_digits(second_of_day / 3600) + seq![':'] + two_digits(second_of_day / 60 % 60) + seq![':']
        + two_digits(
        second_of_day % 60 + if leap {
            1int
        } else {
            0
        },
    )
}

/// Whether `text` shows an instant: its date, `T`, the time of day, `fraction`
/// and `Z`.
pub open spec fn shows_instant(
    text: Seq<char>,
    seconds: int,
    nanos: int,
    fraction: Seq<char>,
) -> bool {
    exists|y: int, m: int, d: int|
        #![trigger ymd_text(y, m, d)]
        is_date(y, m, d) && day_number(y, m, d) == day_of_seconds(seconds) && text == ymd_text(
            y,
            m,
            d,
        ) + seq!['T'] + clock_text(seconds % 86400, nanos >= 1_000_000_000) + fraction + seq!['Z']
}

/// The date that a text shows in the form of [`ymd_text`], if any.
pub open spec fn shown_date(text: Seq<char>) -> Option<(i32, u32, u32)> {
    if exists|y: i32, m: u32, d: u32| #[trigger] shows_date(text, y, m, d) {
        let (y, m, d) = choose|y: i32, m: u32, d: u32| #[trigger] shows_date(text, y, m, d);
        Some((y, m, d))
    } else {
        None
    }
}

/// Whether `text` shows this date in the form of [`ymd_text`].
pub open spec fn shows_date(text: Seq<char>, y: i32, m: u32, d: u32) -> bool {
    is_date(y as int, m as int, d as int) && text == ymd_text(y as int, m as int, d as int)
}

/// Whether seconds since 1970-01-01T00:00:00Z and nanoseconds make an instant.
/// From one thousand million nanoseconds on they lie in a leap second.
pub open spec fn is_instant(seconds: int, nanos: int) -> bool {
    &&& MIN_SECONDS <= seconds <= MAX_SECONDS
    &&& 0 <= nanos < 2_000_000_000
    &&& nanos >= 1_000_000_000 ==> seconds % 60 == 59
}

// ------------------------------------------------------------------
// chrono
// ------------------------------------------------------------------

/// What `chrono::NaiveDate::parse_from_str` with the format `%Y-%m-%d` makes
/// of a text that [`ymd_text`] does not give for any date: the date that it
/// reads from it all the same, or its words on what is wrong.
pub uninterp spec fn loose_date(text: Seq<char>) -> Result<(i32, u32, u32), Seq<char>>;

/// Calls `chrono::NaiveDate::parse_from_str` with the format `%Y-%m-%d`. A
/// text in the form that [`ymd_text`] gives is read as the date it shows. The
/// outcome for any other text is named by [`loose_date`].
#[verifier::external_body]
fn chrono_parse_date(text: &str) -> (r: Result<(i32, u32, u32), String>)
    ensures
        r matches Ok(d) ==> is_date(d.0 as int, d.1 as int, d.2 as int),
        match shown_date(text@) {
            Some(d) => r == Ok::<(i32, u32, u32), String>(d),
            None => match r {
                Ok(d) => loose_date(text@) == Ok::<(i32, u32, u32), Seq<char>>(d),
                Err(e) => loose_date(text@) == Err::<(i32, u32, u32), Seq<char>>(e@),
            },
        },
{
    chrono::NaiveDate::parse_from_str(text, "%Y-%m-%d").map(|d| (d.year(), d.month(), d.day())).map_err(
        |e| e.to_string(),
    )
}

/// Calls `chrono::NaiveDate::format` with `%Y-%m-%d`: the year with four
/// digits, or with a sign where four do not show it, then month and day with
/// two digits each.
#[verifier::external_body]
fn chrono_date_text(year: i32, month: u32, day: u32) -> (r: String)
    requires
        is_date(year as int, month as int, day as int),
    ensures
        r@ == ymd_text(year as int, month as int, day as int),
{
    chrono::NaiveDate::from_ymd_opt(year, month, day).unwrap().format("%Y-%m-%d").to_string()
}

/// Calls `chrono::DateTime::date_naive` on an instant in UTC: the date whose
/// number is that of the day that holds the instant.
#[verifier::external_body]
fn chrono_date_of(seconds: i64) -> (r: (i32, u32, u32))
    requires
        is_instant(seconds as int, 0),
    ensures
        is_date(r.0 as int, r.1 as int, r.2 as int),
        day_number(r.0 as int, r.1 as int, r.2 as int) == day_of_seconds(seconds as int),
{
    let d = chrono::DateTime::from_timestamp(seconds, 0).unwrap().date_naive();
    (d.year(), d.month(), d.day())
}

/// Calls `chrono::NaiveDate::and_hms_opt` with midnight, and takes the result
/// as an instant in UTC: seconds since 1970-01-01T00:00:00Z.
#[verifier::external_body]
fn chrono_midnight(year: i32, month: u32, day: u32) -> (r: i64)
    requires
        is_date(year as int, month as int, day as int),
    ensures
        r == (day_number(year as int, month as int, day as int) - epoch_day()) * 86400,
        is_instant(r as int, 0),
{
    chrono::NaiveDate::from_ymd_opt(year, month, day).unwrap().and_hms_opt(
        0,
        0,
        0,
    ).unwrap().and_utc().timestamp()
}

/// The instant that `chrono::DateTime::parse_from_rfc3339` reads from a text:
/// seconds since 1970-01-01T00:00:00Z and nanoseconds, or `None` where it
/// refuses the text.
pub uninterp spec fn rfc3339(text: Seq<char>) -> Option<(i64, u32)>;

/// Calls `chrono::DateTime::parse_from_rfc3339` and takes the instant in UTC.
/// The outcome is named by [`rfc3339`].
#[verifier::external_body]
fn chrono_parse_instant(text: &str) -> (r: Option<(i64, u32)>)
    ensures
        r == rfc3339(text@),
        r matches Some(t) ==> is_instant(t.0 as int, t.1 as int),
{
    chrono::DateTime::parse_from_rfc3339(text).ok().map(
        |t| (t.timestamp(), t.timestamp_subsec_nanos()),
    )
}

/// Calls `chrono::DateTime::to_rfc3339_opts` with whole seconds and `Z`: the
/// date as [`ymd_text`] gives it, `T`, the time of day, `Z`.
#[verifier::external_body]
fn chrono_seconds_text(seconds: i64, nanos: u32) -> (r: String)
    requires
        is_instant(seconds as int, nanos as int),
    ensures
        shows_instant(r@, seconds as int, nanos as int, seq![]),
{
    chrono::DateTime::from_timestamp(seconds, nanos).unwrap().to_rfc3339_opts(
        chrono::SecondsFormat::Secs,
        true,
    )
}

/// Calls `chrono::DateTime::to_rfc3339_opts` with as many digits of the second
/// as there are, and `Z`. What it prints for a year of four digits is read
/// back by `chrono::DateTime::parse_from_rfc3339` as the same instant.
#[verifier::external_body]
fn chrono_instant_text(seconds: i64, nanos: u32) -> (r: String)
    requires
        is_instant(seconds as int, nanos as int),
    ensures
        shows_instant(
            r@,
            seconds as int,
            nanos as int,
            fraction_text(nanos as int % 1_000_000_000),
        ),
        FOUR_DIGIT_FIRST <= seconds <= FOUR_DIGIT_LAST ==> rfc3339(r@) == Some((seconds, nanos)),
{
    chrono::DateTime::from_timestamp(seconds, nanos).unwrap().to_rfc3339_opts(
        chrono::SecondsFormat::AutoSi,
        true,
    )
}

// ------------------------------------------------------------------
// Date
// ------------------------------------------------------------------

/// A day of the calendar.
#[derive(Clone, Copy, Debug, PartialEq, Eq, Structural)]
pub struct Date {
    year: i32,
    month: u32,
    day: u32,
}

/// The date with these parts.
pub closed spec fn ymd(year: i32, month: u32, day: u32) -> Date {
    Date { year, month, day }
}

/// The parts of a date, and the date of its parts.
pub broadcast proof fn lemma_ymd(year: i32, month: u32, day: u32)
    ensures
        (#[trigger] ymd(year, month, day)).year() == year,
        ymd(year, month, day).month() == month,
        ymd(year, month, day).day() == day,
{
}

/// A date is that of its parts.
pub broadcast proof fn lemma_date_parts(date: Date)
    ensures
        date == ymd(
            #[trigger] date.year() as i32,
            #[trigger] date.month() as u32,
            #[trigger] date.day() as u32,
        ),
{
}

impl Date {
    pub closed spec fn year(self) -> int {
        self.year as int
    }

    pub closed spec fn month(self) -> int {
        self.month as int
    }

    pub closed spec fn day(self) -> int {
        self.day as int
    }

    /// Whether the parts make a date. Every executable value does.
    pub open spec fn valid(self) -> bool {
        is_date(self.year(), self.month(), self.day())
    }

    #[verifier::type_invariant]
    spec fn type_inv(self) -> bool {
        self.valid()
    }

    /// The number of the day, where 0001-01-01 is day 1.
    pub open spec fn number(self) -> int {
        day_number(self.year(), self.month(), self.day())
    }

    /// The text of the date, `YYYY-MM-DD`.
    pub open spec fn text(self) -> Seq<char> {
        ymd_text(self.year(), self.month(), self.day())
    }

    /// Whether the date lies after `other`.
    pub open spec fn after(self, other: Date) -> bool {
        self.number() > other.number()
    }

    /// The date with these parts, where there is one.
    pub fn from_ymd(year: i32, month: u32, day: u32) -> (r: Option<Date>)
        ensures
            r == (if is_date(year as int, month as int, day as int) {
                Some(ymd(year, month, day))
            } else {
                None::<Date>
            }),
    {
        if year < MIN_YEAR || year > MAX_YEAR || month < 1 || month > 12 || day < 1 {
            return None;
        }
        // A multiple of 400 years on, where every year is positive.
        let y: i32 = year + 280000;
        let leap: bool = y % 4 == 0 && (y % 100 != 0 || y % 400 == 0);
        assert(leap == is_leap(year as int));
        let length: u32 = if month == 2 {
            if leap {
                29
            } else {
                28
            }
        } else if month == 4 || month == 6 || month == 9 || month == 11 {
            30
        } else {
            31
        };
        if day > length {
            return None;
        }
        Some(Date { year, month, day })
    }

    /// The parts of the date: year, month, day.
    pub fn parts(&self) -> (r: (i32, u32, u32))
        ensures
            *self == ymd(r.0, r.1, r.2),
            is_date(r.0 as int, r.1 as int, r.2 as int),
    {
        proof {
            use_type_invariant(self);
        }
        (self.year, self.month, self.day)
    }

    /// Reads a date in the form `YYYY-MM-DD`. The error is what is wrong with
    /// the text.
    pub fn parse(text: &str) -> (r: Result<Date, String>)
        ensures
            match r {
                Ok(d) => read_date(text@) == Ok::<Date, Seq<char>>(d),
                Err(e) => read_date(text@) == Err::<Date, Seq<char>>(e@),
            },
    {
        match chrono_parse_date(text) {
            Ok((year, month, day)) => Ok(Date { year, month, day }),
            Err(e) => Err(e),
        }
    }

    /// The text of the date, `YYYY-MM-DD`.
    pub fn format(&self) -> (r: String)
        ensures
            r@ == self.text(),
    {
        proof {
            use_type_invariant(self);
        }
        chrono_date_text(self.year, self.month, self.day)
    }

    /// Whether the date lies after `other`.
    pub fn is_after(&self, other: &Date) -> (r: bool)
        ensures
            r == self.after(*other),
    {
        proof {
            use_type_invariant(self);
            use_type_invariant(other);
            law_numbers_order_dates(*self, *other);
            law_numbers_order_dates(*other, *self);
        }
        self.year > other.year || (self.year == other.year && (self.month > other.month || (
        self.month == other.month && self.day > other.day)))
    }

    /// The first instant of the day in UTC.
    pub fn midnight(&self) -> (r: Timestamp)
        ensures
            r == midnight_of(*self),
    {
        proof {
            use_type_invariant(self);
        }
        Timestamp { seconds: chrono_midnight(self.year, self.month, self.day), nanos: 0 }
    }
}

/// What reading a date gives: the date that the text shows, or what
/// [`loose_date`] says of it.
pub open spec fn read_date(text: Seq<char>) -> Result<Date, Seq<char>> {
    match shown_date(text) {
        Some((y, m, d)) => Ok(ymd(y, m, d)),
        None => match loose_date(text) {
            Ok((y, m, d)) => if is_date(y as int, m as int, d as int) {
                Ok(ymd(y, m, d))
            } else {
                Err(seq![])
            },
            Err(e) => Err(e),
        },
    }
}

/// What is read as a date is one.
pub broadcast proof fn law_read_dates_are_valid(text: Seq<char>)
    ensures
        (#[trigger] read_date(text)) matches Ok(d) ==> d.valid(),
{
}

/// The first instant of a day in UTC.
pub open spec fn midnight_of(date: Date) -> Timestamp {
    instant(((date.number() - epoch_day()) * 86400) as i64, 0)
}

// ------------------------------------------------------------------
// Timestamp
// ------------------------------------------------------------------

/// An instant in UTC.
#[derive(Clone, Copy, Debug, PartialEq, Eq, Structural)]
pub struct Timestamp {
    seconds: i64,
    nanos: u32,
}

/// The instant with these parts.
pub closed spec fn instant(seconds: i64, nanos: u32) -> Timestamp {
    Timestamp { seconds, nanos }
}

/// The parts of an instant.
pub broadcast proof fn lemma_instant(seconds: i64, nanos: u32)
    ensures
        (#[trigger] instant(seconds, nanos)).seconds() == seconds,
        instant(seconds, nanos).nanos() == nanos,
{
}

/// An instant is that of its parts.
pub broadcast proof fn lemma_instant_parts(t: Timestamp)
    ensures
        t == instant(#[trigger] t.seconds() as i64, #[trigger] t.nanos() as u32),
{
}

impl Timestamp {
    /// Seconds since 1970-01-01T00:00:00Z.
    pub closed spec fn seconds(self) -> int {
        self.seconds as int
    }

    /// Nanoseconds past the second.
    pub closed spec fn nanos(self) -> int {
        self.nanos as int
    }

    /// Whether the parts make an instant. Every executable value does.
    pub open spec fn valid(self) -> bool {
        is_instant(self.seconds(), self.nanos())
    }

    #[verifier::type_invariant]
    spec fn type_inv(self) -> bool {
        self.valid()
    }

    /// Whether `date` is the day in UTC that holds the instant.
    pub open spec fn on_day(self, date: Date) -> bool {
        date.valid() && date.number() == day_of_seconds(self.seconds())
    }

    /// The day in UTC that holds the instant.
    pub open spec fn date(self) -> Date {
        choose|date: Date| self.on_day(date)
    }

    /// The instant with these parts, where there is one.
    pub fn new(seconds: i64, nanos: u32) -> (r: Option<Timestamp>)
        ensures
            r == (if is_instant(seconds as int, nanos as int) {
                Some(instant(seconds, nanos))
            } else {
                None::<Timestamp>
            }),
    {
        if seconds < MIN_SECONDS || seconds > MAX_SECONDS || nanos >= 2_000_000_000 {
            return None;
        }
        // A whole number of minutes on, where every instant is positive.
        let shifted: i64 = seconds + 8334601228800;
        assert(shifted % 60 == seconds as int % 60);
        if nanos >= 1_000_000_000 && shifted % 60 != 59 {
            return None;
        }
        Some(Timestamp { seconds, nanos })
    }

    /// Seconds since 1970-01-01T00:00:00Z and nanoseconds past them.
    pub fn parts(&self) -> (r: (i64, u32))
        ensures
            *self == instant(r.0, r.1),
            is_instant(r.0 as int, r.1 as int),
    {
        proof {
            use_type_invariant(self);
        }
        (self.seconds, self.nanos)
    }

    /// Reads an instant in the form of RFC 3339.
    pub fn parse(text: &str) -> (r: Option<Timestamp>)
        ensures
            r == read_instant(text@),
    {
        match chrono_parse_instant(text) {
            Some((seconds, nanos)) => Some(Timestamp { seconds, nanos }),
            None => None,
        }
    }

    /// The day in UTC that holds the instant.
    pub fn date_naive(&self) -> (r: Date)
        ensures
            r == self.date(),
            self.on_day(r),
    {
        proof {
            use_type_invariant(self);
        }
        let (year, month, day) = chrono_date_of(self.seconds);
        let d = Date { year, month, day };
        proof {
            assert(self.on_day(d));
            law_numbers_tell_dates_apart(d, self.date());
        }
        d
    }

    /// The text of the instant in the form of RFC 3339, with whole seconds and
    /// `Z`.
    pub open spec fn iso(self) -> Seq<char> {
        self.date().text() + seq!['T'] + clock_text(
            self.seconds() % 86400,
            self.nanos() >= 1_000_000_000,
        ) + seq!['Z']
    }

    /// The text of the instant in the form of RFC 3339, with whole seconds and
    /// `Z`.
    pub fn to_iso(&self) -> (r: String)
        ensures
            r@ == self.iso(),
    {
        proof {
            use_type_invariant(self);
        }
        let d = self.date_naive();
        let text = chrono_seconds_text(self.seconds, self.nanos);
        proof {
            let (y, m, n) = choose|y: int, m: int, n: int|
                #![trigger ymd_text(y, m, n)]
                is_date(y, m, n) && day_number(y, m, n) == day_of_seconds(self.seconds()) && text@
                    == ymd_text(y, m, n) + seq!['T'] + clock_text(
                    self.seconds() % 86400,
                    self.nanos() >= 1_000_000_000,
                ) + seq![] + seq!['Z'];
            let shown = ymd(y as i32, m as u32, n as u32);
            law_numbers_tell_dates_apart(shown, d);
            assert(text@ =~= self.iso());
        }
        text
    }

    /// The instant in the form of RFC 3339, in full. Reading it gives the
    /// instant back, as long as its year has four digits.
    pub fn to_rfc3339(&self) -> (r: String)
        ensures
            shows_instant(
                r@,
                self.seconds(),
                self.nanos(),
                fraction_text(self.nanos() % 1_000_000_000),
            ),
            FOUR_DIGIT_FIRST <= self.seconds() <= FOUR_DIGIT_LAST ==> read_instant(r@) == Some(
                *self,
            ),
    {
        proof {
            use_type_invariant(self);
        }
        chrono_instant_text(self.seconds, self.nanos)
    }
}

/// What reading an instant gives.
pub open spec fn read_instant(text: Seq<char>) -> Option<Timestamp> {
    match rfc3339(text) {
        Some((seconds, nanos)) => if is_instant(seconds as int, nanos as int) {
            Some(instant(seconds, nanos))
        } else {
            None
        },
        None => None,
    }
}

/// What is read as an instant is one.
pub proof fn law_read_instants_are_valid(text: Seq<char>)
    ensures
        read_instant(text) matches Some(instant) ==> instant.valid(),
{
}

/// What the parts of dates and instants are.
pub broadcast group group_date_parts {
    lemma_ymd,
    lemma_date_parts,
    lemma_instant,
    lemma_instant_parts,
}

// ------------------------------------------------------------------
// Laws of the calendar
// ------------------------------------------------------------------

/// Whether a year, month and day come before another.
pub open spec fn earlier(a: Date, b: Date) -> bool {
    ||| a.year() < b.year()
    ||| a.year() == b.year() && a.month() < b.month()
    ||| a.year() == b.year() && a.month() == b.month() && a.day() < b.day()
}

proof fn lemma_quotient_steps(n: int, k: int)
    requires
        k > 0,
    ensures
        n / k - (n - 1) / k == if n % k == 0 {
            1int
        } else {
            0
        },
{
    vstd::arithmetic::div_mod::lemma_fundamental_div_mod(n, k);
    vstd::arithmetic::div_mod::lemma_mod_bound(n, k);
    let q = n / k;
    let r = n % k;
    assert(k * q == q * k) by (nonlinear_arith);
    if r == 0 {
        assert((q - 1) * k == q * k - k) by (nonlinear_arith);
        vstd::arithmetic::div_mod::lemma_fundamental_div_mod_converse(n - 1, k, q - 1, k - 1);
    } else {
        vstd::arithmetic::div_mod::lemma_fundamental_div_mod_converse(n - 1, k, q, r - 1);
    }
}

proof fn lemma_year_length(a: int)
    ensures
        days_before_year(a) + 365 + (if is_leap(a) {
            1int
        } else {
            0
        }) == days_before_year(a + 1),
{
    lemma_quotient_steps(a, 4);
    lemma_quotient_steps(a, 100);
    lemma_quotient_steps(a, 400);
    assert(a % 400 == 0 ==> a % 100 == 0);
    assert(a % 100 == 0 ==> a % 4 == 0);
}

proof fn lemma_year_lengths(a: int, b: int)
    requires
        a < b,
    ensures
        days_before_year(a) + 365 + (if is_leap(a) {
            1int
        } else {
            0
        }) <= days_before_year(b),
    decreases b - a,
{
    lemma_year_length(b - 1);
    if a + 1 < b {
        lemma_year_lengths(a, b - 1);
    }
}

proof fn lemma_month_lengths(year: int, a: int, b: int)
    requires
        1 <= a < b <= 13,
    ensures
        days_before_month(year, a) + month_length(year, a) <= days_before_month(year, b),
        days_before_month(year, a) >= 0,
        days_before_month(year, 13) == 365 + (if is_leap(year) {
            1int
        } else {
            0
        }),
    decreases b - a,
{
    reveal_with_fuel(days_before_month, 14);
    if a + 1 < b {
        lemma_month_lengths(year, a, b - 1);
    }
}

/// Day numbers order dates as year, month and day do.
pub proof fn law_numbers_order_dates(a: Date, b: Date)
    requires
        a.valid(),
        b.valid(),
    ensures
        earlier(a, b) <==> a.number() < b.number(),
        a.number() == b.number() <==> a == b,
{
    lemma_month_lengths(a.year(), a.month(), 13);
    lemma_month_lengths(b.year(), b.month(), 13);
    if a.year() < b.year() {
        lemma_year_lengths(a.year(), b.year());
    } else if b.year() < a.year() {
        lemma_year_lengths(b.year(), a.year());
    } else if a.month() < b.month() {
        lemma_month_lengths(a.year(), a.month(), b.month());
    } else if b.month() < a.month() {
        lemma_month_lengths(a.year(), b.month(), a.month());
    }
}

/// No two dates have the same number.
pub proof fn law_numbers_tell_dates_apart(a: Date, b: Date)
    requires
        a.valid(),
        b.valid(),
        a.number() == b.number(),
    ensures
        a == b,
{
    law_numbers_order_dates(a, b);
}

proof fn lemma_two_digits(a: int, b: int)
    requires
        0 <= a < 100,
        0 <= b < 100,
    ensures
        two_digits(a) == two_digits(b) <==> a == b,
        text_before(two_digits(a), two_digits(b)) <==> a < b,
        two_digits(a).len() == 2,
{
    let s = two_digits(a);
    let t = two_digits(b);
    assert(s[0] == digit((a / 10) as nat) && s[1] == digit((a % 10) as nat));
    assert(t[0] == digit((b / 10) as nat) && t[1] == digit((b % 10) as nat));
    assert(s.skip(1) =~= seq![s[1]]);
    assert(t.skip(1) =~= seq![t[1]]);
    reveal_with_fuel(text_before, 4);
    if s.skip(1)[0] == t.skip(1)[0] {
        assert(s.skip(1).skip(1) =~= seq![]);
    }
}

proof fn lemma_four_digits(a: int, b: int)
    requires
        0 <= a <= 9999,
        0 <= b <= 9999,
    ensures
        four_digits(a) == four_digits(b) <==> a == b,
        text_before(four_digits(a), four_digits(b)) <==> a < b,
        four_digits(a).len() == 4,
        exists|d: nat| d < 10 && four_digits(a)[0] == digit(d),
{
    lemma_two_digits(a / 100, b / 100);
    lemma_two_digits(a % 100, b % 100);
    let (p, q) = (two_digits(a / 100), two_digits(b / 100));
    let (s, t) = (two_digits(a % 100), two_digits(b % 100));
    assert(four_digits(a).take(2) =~= p && four_digits(a).skip(2) =~= s);
    assert(four_digits(b).take(2) =~= q && four_digits(b).skip(2) =~= t) by {
        lemma_two_digits(b / 100, a / 100);
        lemma_two_digits(b % 100, a % 100);
    }
    if p == q {
        lemma_text_before_common(p, s, t);
    } else {
        lemma_text_before_parts(p, s, q, t);
    }
    assert(four_digits(a)[0] == digit((a / 1000) as nat));
}

proof fn lemma_year_text(a: int, b: int)
    requires
        year_text(a) == year_text(b),
    ensures
        a == b,
{
    let size_a = if a < 0 {
        -a
    } else {
        a
    };
    let size_b = if b < 0 {
        -b
    } else {
        b
    };
    if size_a <= 9999 {
        lemma_four_digits(size_a, size_a);
    } else {
        lemma_decimal_length(size_a as nat);
    }
    if size_b <= 9999 {
        lemma_four_digits(size_b, size_b);
    } else {
        lemma_decimal_length(size_b as nat);
    }
    if !(0 <= a <= 9999) && !(0 <= b <= 9999) {
        assert(year_text(a)[0] == if a < 0 {
            '-'
        } else {
            '+'
        });
        assert(year_text(b)[0] == if b < 0 {
            '-'
        } else {
            '+'
        });
        let digits_a = if size_a <= 9999 {
            four_digits(size_a)
        } else {
            decimal(size_a as nat)
        };
        let digits_b = if size_b <= 9999 {
            four_digits(size_b)
        } else {
            decimal(size_b as nat)
        };
        assert(year_text(a).skip(1) =~= digits_a);
        assert(year_text(b).skip(1) =~= digits_b);
        assert(digits_a.len() == digits_b.len());
        if size_a <= 9999 && size_b <= 9999 {
            lemma_four_digits(size_a, size_b);
        } else if size_a > 9999 && size_b > 9999 {
            law_decimal_is_injective(size_a as nat, size_b as nat);
        }
    } else if 0 <= a <= 9999 && 0 <= b <= 9999 {
        lemma_four_digits(a, b);
    } else {
        let signed = if 0 <= a <= 9999 {
            year_text(b)[0]
        } else {
            year_text(a)[0]
        };
        assert(signed == '-' || signed == '+');
        let plain = if 0 <= a <= 9999 {
            four_digits(a)[0]
        } else {
            four_digits(b)[0]
        };
        let d = choose|d: nat| d < 10 && plain == digit(d);
        assert(plain == digit(d) && plain == signed);
    }
}

/// The text of a date shows no other date.
pub proof fn law_date_text_is_injective(a: Date, b: Date)
    requires
        a.valid(),
        b.valid(),
        a.text() == b.text(),
    ensures
        a == b,
{
    let (ya, yb) = (year_text(a.year()), year_text(b.year()));
    let (n, k) = (ya.len() as int, a.text().len() as int);
    lemma_two_digits(a.month(), b.month());
    lemma_two_digits(a.day(), b.day());
    lemma_two_digits(b.month(), a.month());
    lemma_two_digits(b.day(), a.day());
    assert(yb.len() == n);
    assert(a.text().take(n) =~= ya);
    assert(b.text().take(n) =~= yb);
    lemma_year_text(a.year(), b.year());
    assert(a.text().subrange(n + 1, n + 3) =~= two_digits(a.month()));
    assert(b.text().subrange(n + 1, n + 3) =~= two_digits(b.month()));
    assert(a.text().subrange(n + 4, n + 6) =~= two_digits(a.day()));
    assert(b.text().subrange(n + 4, n + 6) =~= two_digits(b.day()));
}

/// Reading the text of a date gives the date back.
pub proof fn law_dates_read_back(d: Date)
    requires
        d.valid(),
    ensures
        read_date(d.text()) == Ok::<Date, Seq<char>>(d),
{
    assert(shows_date(d.text(), d.year, d.month, d.day));
    let (y, m, n) = choose|y: i32, m: u32, n: u32| #[trigger] shows_date(d.text(), y, m, n);
    law_date_text_is_injective(d, ymd(y, m, n));
}

/// Among the dates whose year has four digits, the order of the texts is the
/// order of the dates.
pub proof fn law_texts_order_dates(a: Date, b: Date)
    requires
        a.valid(),
        b.valid(),
        0 <= a.year() <= 9999,
        0 <= b.year() <= 9999,
    ensures
        text_before(a.text(), b.text()) <==> b.after(a),
{
    law_numbers_order_dates(a, b);
    lemma_four_digits(a.year(), b.year());
    lemma_four_digits(b.year(), a.year());
    lemma_two_digits(a.month(), b.month());
    lemma_two_digits(b.month(), a.month());
    lemma_two_digits(a.day(), b.day());
    lemma_two_digits(b.day(), a.day());
    let dash = seq!['-'];
    let (y1, m1, d1) = (four_digits(a.year()), two_digits(a.month()), two_digits(a.day()));
    let (y2, m2, d2) = (four_digits(b.year()), two_digits(b.month()), two_digits(b.day()));
    assert(a.text() =~= y1 + (dash + (m1 + (dash + d1))));
    assert(b.text() =~= y2 + (dash + (m2 + (dash + d2))));
    if a.year() != b.year() {
        lemma_text_before_parts(y1, dash + (m1 + (dash + d1)), y2, dash + (m2 + (dash + d2)));
    } else {
        lemma_text_before_common(y1, dash + (m1 + (dash + d1)), dash + (m2 + (dash + d2)));
        lemma_text_before_common(dash, m1 + (dash + d1), m2 + (dash + d2));
        if a.month() != b.month() {
            lemma_text_before_parts(m1, dash + d1, m2, dash + d2);
        } else {
            lemma_text_before_common(m1, dash + d1, dash + d2);
            lemma_text_before_common(dash, d1, d2);
        }
    }
}

proof fn lemma_number_bounds(d: Date)
    requires
        d.valid(),
    ensures
        is_instant((d.number() - epoch_day()) * 86400, 0),
{
    lemma_month_lengths(d.year(), d.month(), 13);
    if d.year() > MIN_YEAR {
        lemma_year_lengths(MIN_YEAR as int, d.year());
    }
    lemma_year_lengths(d.year(), MAX_YEAR + 1);
}

/// The day that holds the first instant of a day is that day, and no instant of
/// the day is before it.
pub proof fn law_midnight_is_on_its_day(d: Date)
    requires
        d.valid(),
    ensures
        midnight_of(d).valid(),
        midnight_of(d).on_day(d),
        midnight_of(d).date() == d,
        midnight_of(d).seconds() % 86400 == 0,
        midnight_of(d).nanos() == 0,
        forall|t: Timestamp| #[trigger] t.on_day(d) ==> midnight_of(d).seconds() <= t.seconds(),
{
    lemma_number_bounds(d);
    assert(midnight_of(d).on_day(d));
    law_numbers_tell_dates_apart(d, midnight_of(d).date());
}

/// A later instant never lies on an earlier day.
pub proof fn law_days_follow_instants(a: Timestamp, b: Timestamp, day_a: Date, day_b: Date)
    requires
        a.on_day(day_a),
        b.on_day(day_b),
        a.seconds() <= b.seconds(),
    ensures
        !day_a.after(day_b),
        a.date() == day_a,
{
    law_numbers_tell_dates_apart(day_a, a.date());
}

proof fn lemma_find_year(n: int, year: int) -> (found: int)
    requires
        MIN_YEAR <= year <= MAX_YEAR,
        days_before_year(year) < n <= days_before_year(MAX_YEAR + 1),
    ensures
        year <= found <= MAX_YEAR,
        days_before_year(found) < n <= days_before_year(found + 1),
    decreases MAX_YEAR - year,
{
    if n <= days_before_year(year + 1) {
        year
    } else {
        lemma_find_year(n, year + 1)
    }
}

proof fn lemma_find_month(n: int, year: int, month: int) -> (found: int)
    requires
        1 <= month <= 12,
        days_before_month(year, month) < n <= days_before_month(year, 13),
    ensures
        month <= found <= 12,
        days_before_month(year, found) < n <= days_before_month(year, found) + month_length(
            year,
            found,
        ),
    decreases 12 - month,
{
    reveal_with_fuel(days_before_month, 2);
    if n <= days_before_month(year, month) + month_length(year, month) {
        month
    } else {
        lemma_find_month(n, year, month + 1)
    }
}

/// Every instant lies on a day.
pub proof fn law_every_instant_has_a_day(t: Timestamp)
    requires
        t.valid(),
    ensures
        t.on_day(t.date()),
        t.date().valid(),
{
    let n = day_of_seconds(t.seconds());
    let year = lemma_find_year(n, MIN_YEAR as int);
    lemma_year_length(year);
    lemma_month_lengths(year, 1, 13);
    let in_year = n - days_before_year(year);
    let month = lemma_find_month(in_year, year, 1);
    let day = in_year - days_before_month(year, month);
    let d = ymd(year as i32, month as u32, day as u32);
    assert(t.on_day(d));
}

/// The instants between the bounds lie in years of four digits.
pub proof fn law_four_digit_years(t: Timestamp)
    requires
        t.valid(),
        FOUR_DIGIT_FIRST <= t.seconds() <= FOUR_DIGIT_LAST,
    ensures
        0 <= t.date().year() <= 9999,
{
    law_every_instant_has_a_day(t);
    let d = t.date();
    lemma_month_lengths(d.year(), d.month(), 13);
    if d.year() < 0 {
        lemma_year_lengths(d.year(), 0);
    }
    if d.year() > 9999 {
        if d.year() > 10000 {
            lemma_year_lengths(10000, d.year());
        }
    }
}

} // verus!
