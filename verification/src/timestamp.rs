//! Points in time, to the second, held as their calendar date and time of day in UTC.

use vstd::prelude::*;
use vstd::string::StringExecFns;
use crate::text::{chars_of, digit, digit_char, digit_value, is_digit, string_of};

verus! {

/// A calendar date and a time of day in UTC.
#[derive(Clone, Copy, Debug, PartialEq, Eq, Structural)]
pub struct Timestamp {
    pub year: u16,
    pub month: u8,
    pub day: u8,
    pub hour: u8,
    pub minute: u8,
    pub second: u8,
}

/// Whether `year` has a 29th of February in the Gregorian calendar.
pub open spec fn is_leap_year(year: int) -> bool {
    year % 4 == 0 && (year % 100 != 0 || year % 400 == 0)
}

/// The number of days of `month` in `year`.
pub open spec fn days_in_month(year: int, month: int) -> int {
    if month == 2 {
        if is_leap_year(year) {
            29
        } else {
            28
        }
    } else if month == 4 || month == 6 || month == 9 || month == 11 {
        30
    } else {
        31
    }
}

/// Whether the six numbers are a date of the calendar and a time of the day,
/// in a year of at most four digits.
pub open spec fn is_civil(
    year: int,
    month: int,
    day: int,
    hour: int,
    minute: int,
    second: int,
) -> bool {
    &&& 0 <= year <= 9999
    &&& 1 <= month <= 12
    &&& 1 <= day <= days_in_month(year, month)
    &&& 0 <= hour < 24
    &&& 0 <= minute < 60
    &&& 0 <= second < 60
}

/// The timestamp of six numbers, where they are a date and a time.
pub open spec fn civil(
    year: int,
    month: int,
    day: int,
    hour: int,
    minute: int,
    second: int,
) -> Option<Timestamp> {
    if is_civil(year, month, day, hour, minute, second) {
        Some(
            Timestamp {
                year: year as u16,
                month: month as u8,
                day: day as u8,
                hour: hour as u8,
                minute: minute as u8,
                second: second as u8,
            },
        )
    } else {
        None
    }
}

/// The timestamp of date and time fields that a conversion handed out, if it gave any.
pub open spec fn civil_of(fields: Option<(i32, u8, u8, u8, u8, u8)>) -> Option<Timestamp> {
    match fields {
        Some(f) => civil(f.0 as int, f.1 as int, f.2 as int, f.3 as int, f.4 as int, f.5 as int),
        None => None,
    }
}

/// The timestamp as `YYYY-MM-DDTHH:MM:SSZ`: date, time to the second, and the
/// designator of UTC.
pub open spec fn utc_text(t: Timestamp) -> Seq<char> {
    seq![
        digit_char(t.year as int / 100 / 10 % 10),
        digit_char(t.year as int / 100 % 10),
        digit_char(t.year as int % 100 / 10 % 10),
        digit_char(t.year as int % 100 % 10),
        '-',
        digit_char(t.month as int / 10 % 10),
        digit_char(t.month as int % 10),
        '-',
        digit_char(t.day as int / 10 % 10),
        digit_char(t.day as int % 10),
        'T',
        digit_char(t.hour as int / 10 % 10),
        digit_char(t.hour as int % 10),
        ':',
        digit_char(t.minute as int / 10 % 10),
        digit_char(t.minute as int % 10),
        ':',
        digit_char(t.second as int / 10 % 10),
        digit_char(t.second as int % 10),
        'Z',
    ]
}

/// The number written by the two digits at `at` in `s`.
pub open spec fn two_digit_value(s: Seq<char>, at: int) -> int {
    digit_value(s[at]) * 10 + digit_value(s[at + 1])
}

/// Whether `s` has the shape `DDDD-DD-DDTDD:DD:DDZ`, each `D` a digit.
pub open spec fn has_utc_shape(s: Seq<char>) -> bool {
    &&& s.len() == 20
    &&& is_digit(s[0]) && is_digit(s[1]) && is_digit(s[2]) && is_digit(s[3])
    &&& s[4] == '-'
    &&& is_digit(s[5]) && is_digit(s[6])
    &&& s[7] == '-'
    &&& is_digit(s[8]) && is_digit(s[9])
    &&& s[10] == 'T'
    &&& is_digit(s[11]) && is_digit(s[12])
    &&& s[13] == ':'
    &&& is_digit(s[14]) && is_digit(s[15])
    &&& s[16] == ':'
    &&& is_digit(s[17]) && is_digit(s[18])
    &&& s[19] == 'Z'
}

/// The timestamp that `s` writes in the form of `utc_text`, if it writes one.
pub open spec fn utc_value(s: Seq<char>) -> Option<Timestamp> {
    if has_utc_shape(s) {
        civil(
            two_digit_value(s, 0) * 100 + two_digit_value(s, 2),
            two_digit_value(s, 5),
            two_digit_value(s, 8),
            two_digit_value(s, 11),
            two_digit_value(s, 14),
            two_digit_value(s, 17),
        )
    } else {
        None
    }
}

/// The date and time in UTC of the instant `seconds` after the start of 1970, as
/// `time::OffsetDateTime::from_unix_timestamp` gives them; `None` where it refuses the instant.
pub uninterp spec fn unix_civil(seconds: int) -> Option<(i32, u8, u8, u8, u8, u8)>;

/// The date and time in UTC that `text` writes in ISO 8601, as `time::OffsetDateTime::parse`
/// reads it with `Iso8601::PARSING`; `None` where it refuses the text or the instant has no
/// date in UTC that the crate can hold.
pub uninterp spec fn iso8601_civil(text: Seq<char>) -> Option<(i32, u8, u8, u8, u8, u8)>;

/// Calls `time::OffsetDateTime::from_unix_timestamp` and hands out year, month, day, hour,
/// minute and second of what it made. The contract only names that result.
#[verifier::external_body]
fn civil_from_unix(seconds: i64) -> (r: Option<(i32, u8, u8, u8, u8, u8)>)
    ensures
        r == unix_civil(seconds as int),
{
    match time::OffsetDateTime::from_unix_timestamp(seconds) {
        Ok(t) => Some((t.year(), u8::from(t.month()), t.day(), t.hour(), t.minute(), t.second())),
        Err(_) => None,
    }
}

/// Calls `time::OffsetDateTime::parse` with `Iso8601::PARSING`, moves the result to UTC with
/// `checked_to_offset`, and hands out year, month, day, hour, minute and second. The contract
/// only names that result.
#[verifier::external_body]
fn civil_from_iso8601(text: &str) -> (r: Option<(i32, u8, u8, u8, u8, u8)>)
    ensures
        r == iso8601_civil(text@),
{
    let format = time::format_description::well_known::Iso8601::PARSING;
    match time::OffsetDateTime::parse(text, &format) {
        Ok(t) => match t.checked_to_offset(time::UtcOffset::UTC) {
            Some(t) => Some(
                (t.year(), u8::from(t.month()), t.day(), t.hour(), t.minute(), t.second()),
            ),
            None => None,
        },
        Err(_) => None,
    }
}

fn month_length(year: u16, month: u8) -> (n: u8)
    ensures
        n == days_in_month(year as int, month as int),
{
    if month == 2 {
        if year % 4 == 0 && (year % 100 != 0 || year % 400 == 0) {
            29
        } else {
            28
        }
    } else if month == 4 || month == 6 || month == 9 || month == 11 {
        30
    } else {
        31
    }
}

fn digit_at(v: &Vec<char>, at: usize) -> (r: Option<u8>)
    requires
        at < v.len(),
    ensures
        r is Some <==> is_digit(v@[at as int]),
        r is Some ==> r->0 == digit_value(v@[at as int]),
{
    let c = v[at];
    if '0' <= c && c <= '9' {
        Some(((c as u32) - 48) as u8)
    } else {
        None
    }
}

fn two_digits_at(v: &Vec<char>, at: usize) -> (r: Option<u8>)
    requires
        at + 1 < v.len(),
    ensures
        r is Some <==> is_digit(v@[at as int]) && is_digit(v@[at + 1]),
        r is Some ==> r->0 == two_digit_value(v@, at as int),
{
    match (digit_at(v, at), digit_at(v, at + 1)) {
        (Some(a), Some(b)) => Some(a * 10 + b),
        _ => None,
    }
}

impl Timestamp {
    /// Whether the fields are a date of the calendar and a time of the day.
    pub open spec fn wf(&self) -> bool {
        is_civil(
            self.year as int,
            self.month as int,
            self.day as int,
            self.hour as int,
            self.minute as int,
            self.second as int,
        )
    }

    /// A number that orders timestamps as their instants are ordered: by year, then month,
    /// day, hour, minute and second.
    pub open spec fn key(&self) -> int {
        ((((self.year as int * 256 + self.month as int) * 256 + self.day as int) * 256
            + self.hour as int) * 256 + self.minute as int) * 256 + self.second as int
    }

    /// The timestamp of the six fields; `None` unless they are a date and a time.
    pub fn new(year: i32, month: u8, day: u8, hour: u8, minute: u8, second: u8) -> (r: Option<
        Timestamp,
    >)
        ensures
            r == civil(
                year as int,
                month as int,
                day as int,
                hour as int,
                minute as int,
                second as int,
            ),
            r is Some ==> r->0.wf(),
    {
        if year < 0 || year > 9999 || month < 1 || month > 12 || hour >= 24 || minute >= 60
            || second >= 60 {
            return None;
        }
        let y: u16 = year as u16;
        if day < 1 || day > month_length(y, month) {
            return None;
        }
        Some(Timestamp { year: y, month, day, hour, minute, second })
    }

    /// Whether the fields are a date of the calendar and a time of the day.
    pub fn is_valid(&self) -> (r: bool)
        ensures
            r == self.wf(),
    {
        self.year <= 9999 && 1 <= self.month && self.month <= 12 && 1 <= self.day && self.day
            <= month_length(self.year, self.month) && self.hour < 24 && self.minute < 60
            && self.second < 60
    }

    /// The timestamp of the instant `seconds` after the start of 1970; `None` where the
    /// calendar conversion refuses the instant or its year has not four digits.
    pub fn from_unix(seconds: i64) -> (r: Option<Timestamp>)
        ensures
            r == civil_of(unix_civil(seconds as int)),
            r is Some ==> r->0.wf(),
    {
        match civil_from_unix(seconds) {
            Some(f) => Timestamp::new(f.0, f.1, f.2, f.3, f.4, f.5),
            None => None,
        }
    }

    /// Whether `self` is strictly later than `other`.
    pub fn is_after(&self, other: &Timestamp) -> (r: bool)
        ensures
            r == (self.key() > other.key()),
    {
        if self.year != other.year {
            self.year > other.year
        } else if self.month != other.month {
            self.month > other.month
        } else if self.day != other.day {
            self.day > other.day
        } else if self.hour != other.hour {
            self.hour > other.hour
        } else if self.minute != other.minute {
            self.minute > other.minute
        } else {
            self.second > other.second
        }
    }

    /// Appends `YYYY-MM-DDTHH:MM:SSZ` for this timestamp to `out`.
    pub fn push_utc(&self, out: &mut String)
        ensures
            final(out)@ == old(out)@ + utc_text(*self),
    {
        let century: u16 = self.year / 100;
        let years: u16 = self.year % 100;
        let chars: Vec<char> = vec![
            digit((century / 10 % 10) as u8),
            digit((century % 10) as u8),
            digit((years / 10 % 10) as u8),
            digit((years % 10) as u8),
            '-',
            digit(self.month / 10 % 10),
            digit(self.month % 10),
            '-',
            digit(self.day / 10 % 10),
            digit(self.day % 10),
            'T',
            digit(self.hour / 10 % 10),
            digit(self.hour % 10),
            ':',
            digit(self.minute / 10 % 10),
            digit(self.minute % 10),
            ':',
            digit(self.second / 10 % 10),
            digit(self.second % 10),
            'Z',
        ];
        assert(chars@ =~= utc_text(*self));
        let text = string_of(&chars, 0, chars.len());
        assert(chars@.subrange(0, chars@.len() as int) =~= chars@);
        out.append(text.as_str());
    }

    /// Reads a timestamp written as `YYYY-MM-DDTHH:MM:SSZ`; `None` for any other text and
    /// for numbers that are no date and time.
    pub fn parse_utc(text: &str) -> (r: Option<Timestamp>)
        ensures
            r == utc_value(text@),
            r is Some ==> r->0.wf(),
    {
        let v = chars_of(text);
        if v.len() != 20 {
            return None;
        }
        if v[4] != '-' || v[7] != '-' || v[10] != 'T' || v[13] != ':' || v[16] != ':' || v[19]
            != 'Z' {
            return None;
        }
        let century = two_digits_at(&v, 0);
        let years = two_digits_at(&v, 2);
        let month = two_digits_at(&v, 5);
        let day = two_digits_at(&v, 8);
        let hour = two_digits_at(&v, 11);
        let minute = two_digits_at(&v, 14);
        let second = two_digits_at(&v, 17);
        match (century, years, month, day, hour, minute, second) {
            (Some(c), Some(y), Some(mo), Some(d), Some(h), Some(mi), Some(s)) => {
                let year: i32 = (c as i32) * 100 + (y as i32);
                Timestamp::new(year, mo, d, h, mi, s)
            },
            _ => None,
        }
    }
}

/// Reads a timestamp written in ISO 8601, with any offset, and gives it in UTC to the
/// second; `None` where the reader refuses the text or the year in UTC has not four digits.
pub fn parse_iso(input: &str) -> (r: Option<Timestamp>)
    ensures
        r == civil_of(iso8601_civil(input@)),
        r is Some ==> r->0.wf(),
{
    match civil_from_iso8601(input) {
        Some(f) => Timestamp::new(f.0, f.1, f.2, f.3, f.4, f.5),
        None => None,
    }
}

proof fn lemma_digit_pair(n: int)
    requires
        0 <= n < 100,
    ensures
        is_digit(digit_char(n / 10 % 10)),
        is_digit(digit_char(n % 10)),
        digit_value(digit_char(n / 10 % 10)) * 10 + digit_value(digit_char(n % 10)) == n,
{
}

proof fn lemma_pair_at(s: Seq<char>, at: int, n: int)
    requires
        0 <= n < 100,
        0 <= at,
        at + 1 < s.len(),
        s[at] == digit_char(n / 10 % 10),
        s[at + 1] == digit_char(n % 10),
    ensures
        is_digit(s[at]),
        is_digit(s[at + 1]),
        two_digit_value(s, at) == n,
{
    lemma_digit_pair(n);
}

/// Reading back what `push_utc` wrote gives the timestamp that was written.
pub proof fn lemma_utc_text_round_trip(t: Timestamp)
    requires
        t.wf(),
    ensures
        utc_value(utc_text(t)) == Some(t),
{
    let s = utc_text(t);
    let y = t.year as int;
    assert(s.len() == 20);
    lemma_pair_at(s, 0, y / 100);
    lemma_pair_at(s, 2, y % 100);
    lemma_pair_at(s, 5, t.month as int);
    lemma_pair_at(s, 8, t.day as int);
    lemma_pair_at(s, 11, t.hour as int);
    lemma_pair_at(s, 14, t.minute as int);
    lemma_pair_at(s, 17, t.second as int);
}

/// Two valid timestamps with the same text are the same timestamp.
pub proof fn lemma_utc_text_injective(a: Timestamp, b: Timestamp)
    requires
        a.wf(),
        b.wf(),
        utc_text(a) == utc_text(b),
    ensures
        a == b,
{
    lemma_utc_text_round_trip(a);
    lemma_utc_text_round_trip(b);
}

} // verus!
