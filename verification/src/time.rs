//! Launch timestamps: the proleptic Gregorian calendar that chrono's
//! `NaiveDateTime` follows, the `LaunchTime` value that stands for one, and
//! the parser of the feed's `YYYY-MM-DDThh:mm:ssZ` timestamps.
use vstd::prelude::*;
use std::num::ParseIntError;

use crate::text::{
    decimal, decimal_string, digit_char, lemma_split_nonempty, lemma_split_join, lemma_split_without_sep, split_at_char, split_chars,
    string_views,
};

verus! {

/// A calendar date and a time of day, as mathematical integers.
pub ghost struct CivilTime {
    pub year: int,
    pub month: int,
    pub day: int,
    pub hour: int,
    pub minute: int,
    pub second: int,
    pub nanosecond: int,
}

pub open spec fn is_leap_year(y: int) -> bool {
    y % 4 == 0 && (y % 100 != 0 || y % 400 == 0)
}

pub open spec fn days_in_month(y: int, m: int) -> int {
    if m == 2 {
        if is_leap_year(y) {
            29
        } else {
            28
        }
    } else if m == 4 || m == 6 || m == 9 || m == 11 {
        30
    } else {
        31
    }
}

/// The dates that chrono's `NaiveDate` can hold: years from -262143 to
/// 262142, a month from 1 to 12 and a day that this month has.
pub open spec fn valid_date(y: int, m: int, d: int) -> bool {
    &&& -262143 <= y <= 262142
    &&& 1 <= m <= 12
    &&& 1 <= d <= days_in_month(y, m)
}

/// The times of day that chrono's `NaiveTime::from_hms_opt` accepts.
pub open spec fn valid_clock(h: int, mi: int, s: int) -> bool {
    &&& 0 <= h < 24
    &&& 0 <= mi < 60
    &&& 0 <= s < 60
}

pub open spec fn valid_civil(t: CivilTime) -> bool {
    &&& valid_date(t.year, t.month, t.day)
    &&& valid_clock(t.hour, t.minute, t.second)
    &&& 0 <= t.nanosecond < 1_000_000_000
}

/// Days of the year that lie before the first day of month `m`.
pub open spec fn days_before_month(y: int, m: int) -> int {
    let common: int = if m == 1 {
        0
    } else if m == 2 {
        31
    } else if m == 3 {
        59
    } else if m == 4 {
        90
    } else if m == 5 {
        120
    } else if m == 6 {
        151
    } else if m == 7 {
        181
    } else if m == 8 {
        212
    } else if m == 9 {
        243
    } else if m == 10 {
        273
    } else if m == 11 {
        304
    } else {
        334
    };
    if m > 2 && is_leap_year(y) {
        common + 1
    } else {
        common
    }
}

/// Days from 0001-01-01 to the given date (negative before it).
pub open spec fn day_number(y: int, m: int, d: int) -> int {
    let p = y - 1;
    365 * p + p / 4 - p / 100 + p / 400 + days_before_month(y, m) + d - 1
}

/// Seconds from 0001-01-01T00:00:00 to `t`.
pub open spec fn civil_seconds(t: CivilTime) -> int {
    day_number(t.year, t.month, t.day) * 86400 + t.hour * 3600 + t.minute * 60 + t.second
}

/// Nanoseconds from 0001-01-01T00:00:00 to `t`.
pub open spec fn civil_nanos(t: CivilTime) -> int {
    civil_seconds(t) * 1_000_000_000 + t.nanosecond
}

/// `a / b` rounded toward zero, as Rust's integer division rounds.
pub open spec fn trunc_div(a: int, b: int) -> int {
    if a >= 0 {
        a / b
    } else {
        -((-a) / b)
    }
}

/// The whole seconds from `earlier` to `later`, the fraction dropped toward
/// zero (what chrono's `signed_duration_since(..).num_seconds()` gives).
pub open spec fn seconds_between(later: CivilTime, earlier: CivilTime) -> int {
    trunc_div(civil_nanos(later) - civil_nanos(earlier), 1_000_000_000)
}

/// A valid date and time of day, without a time zone (what chrono calls a
/// `NaiveDateTime`, without leap seconds).
pub struct LaunchTime {
    year: i32,
    month: u32,
    day: u32,
    hour: u32,
    minute: u32,
    second: u32,
    nanosecond: u32,
}

impl View for LaunchTime {
    type V = CivilTime;

    closed spec fn view(&self) -> CivilTime {
        CivilTime {
            year: self.year as int,
            month: self.month as int,
            day: self.day as int,
            hour: self.hour as int,
            minute: self.minute as int,
            second: self.second as int,
            nanosecond: self.nanosecond as int,
        }
    }
}

/// `chrono::NaiveDate::from_ymd_opt`: returns a date exactly when the year
/// lies within chrono's range (-262143 to 262142), the month is 1 to 12 and
/// the day exists in that month of the proleptic Gregorian calendar.
#[verifier::external_body]
fn chrono_date_exists(year: i32, month: u32, day: u32) -> (r: bool)
    ensures
        r == valid_date(year as int, month as int, day as int),
{
    chrono::NaiveDate::from_ymd_opt(year, month, day).is_some()
}

/// `chrono::NaiveTime::from_hms_opt`: returns a time exactly when the hour is
/// below 24 and the minute and the second are below 60.
#[verifier::external_body]
fn chrono_clock_exists(hour: u32, minute: u32, second: u32) -> (r: bool)
    ensures
        r == valid_clock(hour as int, minute as int, second as int),
{
    chrono::NaiveTime::from_hms_opt(hour, minute, second).is_some()
}

/// `chrono::NaiveDateTime::signed_duration_since` followed by
/// `TimeDelta::num_seconds`, on the two `NaiveDateTime`s that the arguments
/// stand for: the time from `earlier` to `later` on the proleptic Gregorian
/// calendar (negative when `later` is the earlier one), in whole seconds
/// with the fraction dropped toward zero.
#[verifier::external_body]
fn chrono_seconds_between(later: &LaunchTime, earlier: &LaunchTime) -> (r: i64)
    requires
        valid_civil(later@),
        valid_civil(earlier@),
    ensures
        r == seconds_between(later@, earlier@),
{
    let a = chrono::NaiveDate::from_ymd_opt(later.year, later.month, later.day).unwrap()
        .and_hms_nano_opt(later.hour, later.minute, later.second, later.nanosecond).unwrap();
    let b = chrono::NaiveDate::from_ymd_opt(earlier.year, earlier.month, earlier.day).unwrap()
        .and_hms_nano_opt(earlier.hour, earlier.minute, earlier.second, earlier.nanosecond)
        .unwrap();
    a.signed_duration_since(b).num_seconds()
}

impl LaunchTime {
    #[verifier::type_invariant]
    spec fn is_valid(self) -> bool {
        valid_civil(self@)
    }

    /// The time with the given fields and no fraction of a second, if chrono
    /// has such a date and time.
    pub fn new(year: i32, month: u32, day: u32, hour: u32, minute: u32, second: u32) -> (r:
        Option<LaunchTime>)
        ensures
            r is Some <==> valid_civil(
                CivilTime {
                    year: year as int,
                    month: month as int,
                    day: day as int,
                    hour: hour as int,
                    minute: minute as int,
                    second: second as int,
                    nanosecond: 0,
                },
            ),
            r matches Some(t) ==> t@ == (CivilTime {
                year: year as int,
                month: month as int,
                day: day as int,
                hour: hour as int,
                minute: minute as int,
                second: second as int,
                nanosecond: 0,
            }),
    {
        LaunchTime::new_with_nanosecond(year, month, day, hour, minute, second, 0)
    }

    /// The time with the given fields, if chrono has such a date and time
    /// and the nanoseconds are below one second (no leap second).
    pub fn new_with_nanosecond(
        year: i32,
        month: u32,
        day: u32,
        hour: u32,
        minute: u32,
        second: u32,
        nanosecond: u32,
    ) -> (r: Option<LaunchTime>)
        ensures
            r is Some <==> valid_civil(
                CivilTime {
                    year: year as int,
                    month: month as int,
                    day: day as int,
                    hour: hour as int,
                    minute: minute as int,
                    second: second as int,
                    nanosecond: nanosecond as int,
                },
            ),
            r matches Some(t) ==> t@ == (CivilTime {
                year: year as int,
                month: month as int,
                day: day as int,
                hour: hour as int,
                minute: minute as int,
                second: second as int,
                nanosecond: nanosecond as int,
            }),
    {
        if nanosecond < 1_000_000_000 && chrono_date_exists(year, month, day)
            && chrono_clock_exists(hour, minute, second) {
            Some(LaunchTime { year, month, day, hour, minute, second, nanosecond })
        } else {
            None
        }
    }

    pub fn year(&self) -> (r: i32)
        ensures
            r as int == self@.year,
    {
        self.year
    }

    pub fn month(&self) -> (r: u32)
        ensures
            r as int == self@.month,
    {
        self.month
    }

    pub fn day(&self) -> (r: u32)
        ensures
            r as int == self@.day,
    {
        self.day
    }

    pub fn hour(&self) -> (r: u32)
        ensures
            r as int == self@.hour,
    {
        self.hour
    }

    pub fn minute(&self) -> (r: u32)
        ensures
            r as int == self@.minute,
    {
        self.minute
    }

    pub fn second(&self) -> (r: u32)
        ensures
            r as int == self@.second,
    {
        self.second
    }

    pub fn nanosecond(&self) -> (r: u32)
        ensures
            r as int == self@.nanosecond,
    {
        self.nanosecond
    }

    /// The whole seconds from `earlier` to `self`, the fraction dropped
    /// toward zero (what `self.signed_duration_since(earlier).num_seconds()`
    /// gives in chrono).
    pub fn seconds_since(&self, earlier: &LaunchTime) -> (r: i64)
        ensures
            r == seconds_between(self@, earlier@),
    {
        proof {
            use_type_invariant(self);
            use_type_invariant(earlier);
        }
        chrono_seconds_between(self, earlier)
    }
}


#[verifier::external_type_specification]
#[verifier::external_body]
pub struct ExParseIntError(ParseIntError);

pub open spec fn is_digit(c: char) -> bool {
    '0' <= c && c <= '9'
}

/// The number that a string of decimal digits writes.
pub open spec fn digits_value(s: Seq<char>) -> nat
    decreases s.len(),
{
    if s.len() == 0 {
        0
    } else {
        digits_value(s.drop_last()) * 10 + (s.last() as nat - '0' as nat) as nat
    }
}

/// What `u32::from_str` accepts: an optional `+` followed by at least one
/// decimal digit and nothing else, writing a number that fits in a `u32`.
pub open spec fn parse_u32_spec(s: Seq<char>) -> Option<u32> {
    let d = if s.len() > 0 && s[0] == '+' {
        s.drop_first()
    } else {
        s
    };
    if d.len() > 0 && (forall|i: int| 0 <= i < d.len() ==> is_digit(#[trigger] d[i]))
        && digits_value(d) <= u32::MAX {
        Some(digits_value(d) as u32)
    } else {
        None
    }
}

/// The error that `str::parse::<u32>` gives for a text it refuses (it
/// depends on the text alone).
pub uninterp spec fn u32_parse_error(s: Seq<char>) -> ParseIntError;

/// `<u32 as FromStr>::from_str` (`str::parse::<u32>`): as its documentation
/// says, it succeeds exactly on an optional `+` sign followed by decimal
/// digits only, whose value fits in a `u32`, and then returns that value;
/// otherwise it returns the error that the text gives, named
/// `u32_parse_error`. Which kind that error has is not stated.
#[verifier::external_body]
fn parse_u32(s: &str) -> (r: Result<u32, ParseIntError>)
    ensures
        r is Ok <==> parse_u32_spec(s@) is Some,
        r matches Ok(v) ==> parse_u32_spec(s@) == Some(v),
        r matches Err(e) ==> e == u32_parse_error(s@),
{
    s.parse::<u32>()
}

/// Whether every piece is a number that `u32::from_str` accepts.
pub open spec fn all_numbers(pieces: Seq<Seq<char>>) -> bool {
    forall|i: int| 0 <= i < pieces.len() ==> (#[trigger] parse_u32_spec(pieces[i])) is Some
}

/// Whether piece `i` is the first that is no number.
pub open spec fn is_first_bad(pieces: Seq<Seq<char>>, i: int) -> bool {
    &&& 0 <= i < pieces.len()
    &&& parse_u32_spec(pieces[i]) is None
    &&& forall|j: int| 0 <= j < i ==> (#[trigger] parse_u32_spec(pieces[j])) is Some
}

/// The first piece that is no number (meaningful when there is one).
pub open spec fn first_bad_piece(pieces: Seq<Seq<char>>) -> Seq<char> {
    pieces[choose|i: int| is_first_bad(pieces, i)]
}

/// The numbers that the pieces write.
pub open spec fn number_values(pieces: Seq<Seq<char>>) -> Seq<u32> {
    Seq::new(
        pieces.len(),
        |i: int|
            match parse_u32_spec(pieces[i]) {
                Some(v) => v,
                None => 0,
            },
    )
}

/// Parses every piece as a `u32`, stopping at the first failure (as
/// collecting an iterator of results into a `Result<Vec<_>, _>` does).
fn parse_all(pieces: &Vec<String>) -> (r: Result<Vec<u32>, ParseIntError>)
    ensures
        r is Ok <==> all_numbers(string_views(pieces@)),
        r matches Ok(v) ==> v@ == number_values(string_views(pieces@)),
        r matches Err(e) ==> e == u32_parse_error(first_bad_piece(string_views(pieces@))),
{
    let mut values: Vec<u32> = Vec::new();
    let mut i: usize = 0;
    while i < pieces.len()
        invariant
            i <= pieces@.len(),
            values@.len() == i,
            forall|j: int|
                0 <= j < i ==> (#[trigger] parse_u32_spec(string_views(pieces@)[j])) == Some(
                    values@[j],
                ),
        decreases pieces@.len() - i,
    {
        match parse_u32(pieces[i].as_str()) {
            Ok(v) => {
                values.push(v);
            },
            Err(e) => {
                let ghost ps = string_views(pieces@);
                assert(parse_u32_spec(ps[i as int]) is None);
                assert(is_first_bad(ps, i as int));
                let ghost c = choose|k: int| is_first_bad(ps, k);
                assert(c == i) by {
                    if c < i {
                        assert(parse_u32_spec(ps[c]) is Some);
                    } else if c > i {
                        assert(parse_u32_spec(ps[i as int]) is Some);
                    }
                }
                return Err(e);
            },
        }
        i = i + 1;
    }
    assert(values@ =~= number_values(string_views(pieces@)));
    Ok(values)
}

/// Which split of a timestamp had the wrong number of pieces.
pub enum SplitField {
    Parts,
    Date,
    Time,
}

/// The name that an error gives to a split.
pub open spec fn split_label(f: SplitField) -> Seq<char> {
    match f {
        SplitField::Parts => "Parts"@,
        SplitField::Date => "Date"@,
        SplitField::Time => "Time"@,
    }
}

/// What parsing a timestamp gives: a time, the first piece that is no number
/// (whose parse error is returned), a
/// split with the wrong number of pieces (and that number), or no result at
/// all, where the parser aborts (its clock part is empty or does not end in
/// an ASCII character, or chrono has no such date or time).
pub ghost enum TimeParseSpec {
    Parsed(CivilTime),
    BadNumber(Seq<char>),
    BadSplit(SplitField, nat),
    Aborts,
}

/// `YYYY-MM-DDThh:mm:ss` followed by one more (ASCII) character, usually
/// `Z`: the text is split at `T` into exactly two parts; the first at `-`
/// into exactly three numbers; the second, without its last character, at
/// `:` into exactly three numbers. The year is the first number taken as an
/// `i32` (wrapping, as `as i32` does).
#[verifier::opaque]
pub open spec fn time_parse_spec(s: Seq<char>) -> TimeParseSpec {
    let parts = split_at_char(s, 'T');
    if parts.len() != 2 {
        TimeParseSpec::BadSplit(SplitField::Parts, parts.len())
    } else {
        let date = split_at_char(parts[0], '-');
        if !all_numbers(date) {
            TimeParseSpec::BadNumber(first_bad_piece(date))
        } else if date.len() != 3 {
            TimeParseSpec::BadSplit(SplitField::Date, date.len())
        } else {
            let rest = parts[1];
            if rest.len() == 0 || rest.last() as u32 >= 128 {
                TimeParseSpec::Aborts
            } else {
                let clock = split_at_char(rest.drop_last(), ':');
                if !all_numbers(clock) {
                    TimeParseSpec::BadNumber(first_bad_piece(clock))
                } else if clock.len() != 3 {
                    TimeParseSpec::BadSplit(SplitField::Time, clock.len())
                } else {
                    let d = number_values(date);
                    let c = number_values(clock);
                    let t = CivilTime {
                        year: (d[0] as i32) as int,
                        month: d[1] as int,
                        day: d[2] as int,
                        hour: c[0] as int,
                        minute: c[1] as int,
                        second: c[2] as int,
                        nanosecond: 0,
                    };
                    if valid_civil(t) {
                        TimeParseSpec::Parsed(t)
                    } else {
                        TimeParseSpec::Aborts
                    }
                }
            }
        }
    }
}

/// Why a timestamp could not be parsed.
#[derive(Debug)]
pub enum ParseTimeError {
    ParseIntError(ParseIntError),
    InvalidSplit(&'static str, u32),
}

impl From<ParseIntError> for ParseTimeError {
    fn from(e: ParseIntError) -> (r: Self) {
        ParseTimeError::ParseIntError(e)
    }
}

impl vstd::std_specs::convert::FromSpecImpl<ParseIntError> for ParseTimeError {
    open spec fn obeys_from_spec() -> bool {
        true
    }

    open spec fn from_spec(v: ParseIntError) -> Self {
        ParseTimeError::ParseIntError(v)
    }
}

/// Whether a parser error is the one that the specification describes.
pub open spec fn error_matches(e: ParseTimeError, s: TimeParseSpec) -> bool {
    match (e, s) {
        (ParseTimeError::ParseIntError(e), TimeParseSpec::BadNumber(piece)) => e
            == u32_parse_error(piece),
        (ParseTimeError::InvalidSplit(label, n), TimeParseSpec::BadSplit(f, count)) => label@
            == split_label(f) && n == count as u32,
        _ => false,
    }
}

/// The outcome of parsing a timestamp, with the aborting inputs told apart.
pub enum TimeParse {
    Parsed(LaunchTime),
    Failed(ParseTimeError),
    Aborts,
}

/// Parses a timestamp, telling apart the inputs on which `parse_time`
/// aborts instead of answering.
pub fn try_parse_time(time: &str) -> (r: TimeParse)
    ensures
        match r {
            TimeParse::Parsed(t) => time_parse_spec(time@) == TimeParseSpec::Parsed(t@),
            TimeParse::Failed(e) => error_matches(e, time_parse_spec(time@)),
            TimeParse::Aborts => time_parse_spec(time@) is Aborts,
        },
{
    reveal(time_parse_spec);
    let parts = split_chars(time, 'T');
    if parts.len() != 2 {
        return TimeParse::Failed(ParseTimeError::InvalidSplit("Parts", parts.len() as u32));
    }
    let ghost ps = string_views(parts@);
    assert(ps[0] == parts@[0]@ && ps[1] == parts@[1]@);
    let date_pieces = split_chars(parts[0].as_str(), '-');
    let date = match parse_all(&date_pieces) {
        Ok(v) => v,
        Err(e) => {
            return TimeParse::Failed(ParseTimeError::from(e));
        },
    };
    if date.len() != 3 {
        return TimeParse::Failed(ParseTimeError::InvalidSplit("Date", date.len() as u32));
    }
    let rest = parts[1].as_str();
    let n = rest.unicode_len();
    if n == 0 {
        return TimeParse::Aborts;
    }
    let last = rest.get_char(n - 1);
    if last as u32 >= 128 {
        return TimeParse::Aborts;
    }
    let clock_text = rest.substring_char(0, n - 1);
    assert(clock_text@ =~= rest@.drop_last());
    let clock_pieces = split_chars(clock_text, ':');
    let clock = match parse_all(&clock_pieces) {
        Ok(v) => v,
        Err(e) => {
            return TimeParse::Failed(ParseTimeError::from(e));
        },
    };
    if clock.len() != 3 {
        return TimeParse::Failed(ParseTimeError::InvalidSplit("Time", clock.len() as u32));
    }
    let year = date[0] as i32;
    match LaunchTime::new(year, date[1], date[2], clock[0], clock[1], clock[2]) {
        Some(t) => TimeParse::Parsed(t),
        None => TimeParse::Aborts,
    }
}

/// Whether `r` is what `parse_time` may return for a text with the given
/// parse outcome (its `ensures`).
pub open spec fn parse_result_matches(
    r: core::result::Result<LaunchTime, ParseTimeError>,
    outcome: TimeParseSpec,
) -> bool {
    match r {
        Ok(t) => outcome == TimeParseSpec::Parsed(t@),
        Err(e) => error_matches(e, outcome),
    }
}

/// Parses a feed timestamp such as `2023-05-04T18:30:00Z`.
pub fn parse_time(time: &str) -> (r: Result<LaunchTime, ParseTimeError>)
    requires
        !(time_parse_spec(time@) is Aborts),
    ensures
        parse_result_matches(r, time_parse_spec(time@)),
{
    match try_parse_time(time) {
        TimeParse::Parsed(t) => Ok(t),
        TimeParse::Failed(e) => Err(e),
        // excluded by the precondition
        TimeParse::Aborts => Err(ParseTimeError::InvalidSplit("Parts", 0)),
    }
}


/// A decimal number is a string of digits that has that value.
pub proof fn lemma_decimal_digits(n: nat)
    ensures
        decimal(n).len() > 0,
        forall|i: int| 0 <= i < decimal(n).len() ==> is_digit(#[trigger] decimal(n)[i]),
        digits_value(decimal(n)) == n,
    decreases n,
{
    let d = (n % 10) as nat;
    assert(is_digit(digit_char(d)) && digit_char(d) as nat - '0' as nat == d);
    if n >= 10 {
        lemma_decimal_digits(n / 10);
        assert(decimal(n).drop_last() =~= decimal(n / 10));
        assert(decimal(n).last() == digit_char(d));
        assert(n == (n / 10) * 10 + d);
    } else {
        assert(decimal(n).drop_last() =~= Seq::<char>::empty());
        assert(digits_value(Seq::<char>::empty()) == 0);
        assert(d == n);
    }
}

/// A leading zero does not change the value of a string of digits.
pub proof fn lemma_leading_zero(s: Seq<char>)
    ensures
        digits_value(seq!['0'] + s) == digits_value(s),
    decreases s.len(),
{
    if s.len() > 0 {
        lemma_leading_zero(s.drop_last());
        assert((seq!['0'] + s).drop_last() =~= seq!['0'] + s.drop_last());
        assert((seq!['0'] + s).last() == s.last());
    } else {
        assert((seq!['0'] + s).drop_last() =~= Seq::<char>::empty());
        assert(digits_value(Seq::<char>::empty()) == 0);
        assert((seq!['0'] + s).last() == '0');
    }
}

/// A number below 100 in two digits, as chrono's `%m`, `%d`, `%H`, `%M` and
/// `%S` write one.
pub open spec fn two_digits(n: nat) -> Seq<char> {
    if n < 10 {
        seq!['0'] + decimal(n)
    } else {
        decimal(n)
    }
}

/// A number zero-padded to four digits.
pub open spec fn four_digits(n: nat) -> Seq<char> {
    if n < 10 {
        seq!['0', '0', '0'] + decimal(n)
    } else if n < 100 {
        seq!['0', '0'] + decimal(n)
    } else if n < 1000 {
        seq!['0'] + decimal(n)
    } else {
        decimal(n)
    }
}

/// A year as chrono's `%Y` writes it: four digits from 0 to 9999, and
/// otherwise a sign followed by at least four digits.
pub open spec fn year_text(y: int) -> Seq<char> {
    if 0 <= y <= 9999 {
        four_digits(y as nat)
    } else if y > 9999 {
        seq!['+'] + decimal(y as nat)
    } else {
        seq!['-'] + four_digits((-y) as nat)
    }
}

/// A launch time as the notification shows it, `%d/%m/%Y %H:%M` in
/// chrono's notation: day, month, year, hour and minute.
pub open spec fn launch_time_text(t: CivilTime) -> Seq<char> {
    two_digits(t.day as nat) + seq!['/'] + two_digits(t.month as nat) + seq!['/'] + year_text(
        t.year,
    ) + seq![' '] + two_digits(t.hour as nat) + seq![':'] + two_digits(t.minute as nat)
}

/// Only digits, or a `+` sign.
pub open spec fn numeric_text(s: Seq<char>) -> bool {
    forall|i: int| 0 <= i < s.len() ==> is_digit(#[trigger] s[i]) || s[i] == '+'
}

proof fn lemma_padded_number(n: nat, zeros: Seq<char>)
    requires
        n <= u32::MAX,
        zeros.len() <= 3,
        forall|i: int| 0 <= i < zeros.len() ==> #[trigger] zeros[i] == '0',
    ensures
        parse_u32_spec(zeros + decimal(n)) == Some(n as u32),
        numeric_text(zeros + decimal(n)),
        forall|i: int|
            0 <= i < (zeros + decimal(n)).len() ==> is_digit(#[trigger] (zeros + decimal(n))[i]),
    decreases zeros.len(),
{
    lemma_decimal_digits(n);
    let t = zeros + decimal(n);
    if zeros.len() > 0 {
        let rest = zeros.drop_first();
        lemma_padded_number(n, rest);
        assert(t =~= seq!['0'] + (rest + decimal(n)));
        lemma_leading_zero(rest + decimal(n));
    } else {
        assert(t =~= decimal(n));
    }
    assert forall|i: int| 0 <= i < t.len() implies is_digit(#[trigger] t[i]) by {
        if i < zeros.len() {
            assert(t[i] == zeros[i]);
        } else {
            assert(t[i] == decimal(n)[i - zeros.len()]);
        }
    }
}

proof fn lemma_two_digits(n: nat)
    requires
        n < 100,
    ensures
        parse_u32_spec(two_digits(n)) == Some(n as u32),
        numeric_text(two_digits(n)),
{
    if n < 10 {
        lemma_padded_number(n, seq!['0']);
    } else {
        lemma_padded_number(n, Seq::<char>::empty());
        assert(Seq::<char>::empty() + decimal(n) =~= decimal(n));
    }
}

proof fn lemma_year_text(y: int)
    requires
        0 <= y <= 262142,
    ensures
        parse_u32_spec(year_text(y)) == Some(y as u32),
        numeric_text(year_text(y)),
{
    let n = y as nat;
    let e = Seq::<char>::empty();
    if y < 10 {
        lemma_padded_number(n, seq!['0', '0', '0']);
    } else if y < 100 {
        lemma_padded_number(n, seq!['0', '0']);
    } else if y < 1000 {
        lemma_padded_number(n, seq!['0']);
    } else if y <= 9999 {
        lemma_padded_number(n, e);
        assert(e + decimal(n) =~= decimal(n));
    } else {
        lemma_padded_number(n, e);
        assert(e + decimal(n) =~= decimal(n));
        let t = year_text(y);
        assert(t.drop_first() =~= decimal(n));
        assert forall|i: int| 0 <= i < t.len() implies is_digit(#[trigger] t[i]) || t[i] == '+' by {
            if i > 0 {
                assert(t[i] == decimal(n)[i - 1]);
            }
        }
    }
}

/// A timestamp as the feed writes one: `%Y-%m-%dT%H:%M:%S` in chrono's
/// notation, followed by `Z`.
pub open spec fn timestamp_text(t: CivilTime) -> Seq<char> {
    year_text(t.year) + seq!['-'] + two_digits(t.month as nat) + seq!['-'] + two_digits(
        t.day as nat,
    ) + seq!['T'] + two_digits(t.hour as nat) + seq![':'] + two_digits(t.minute as nat) + seq![
        ':',
    ] + two_digits(t.second as nat) + seq!['Z']
}

proof fn lemma_numeric_avoids(s: Seq<char>, sep: char)
    requires
        numeric_text(s),
        !is_digit(sep),
        sep != '+',
    ensures
        split_at_char(s, sep) == seq![s],
        forall|i: int| 0 <= i < s.len() ==> s[i] != sep,
{
    assert forall|i: int| 0 <= i < s.len() implies s[i] != sep by {
        assert(is_digit(s[i]) || s[i] == '+');
    }
    lemma_split_without_sep(s, sep);
}

/// Three numbers joined by two separators contain no `sep2`.
proof fn lemma_join_avoids(a: Seq<char>, b: Seq<char>, c: Seq<char>, sep: char, other: char)
    requires
        numeric_text(a),
        numeric_text(b),
        numeric_text(c),
        sep != other,
        !is_digit(other),
        other != '+',
    ensures
        forall|i: int|
            0 <= i < (a + seq![sep] + b + seq![sep] + c).len() ==> #[trigger] (a + seq![sep] + b
                + seq![sep] + c)[i] != other,
{
    lemma_numeric_avoids(a, other);
    lemma_numeric_avoids(b, other);
    lemma_numeric_avoids(c, other);
    let j = a + seq![sep] + b + seq![sep] + c;
    assert forall|i: int| 0 <= i < j.len() implies #[trigger] j[i] != other by {
        if i < a.len() {
            assert(j[i] == a[i]);
        } else if i == a.len() {
        } else if i < a.len() + 1 + b.len() {
            assert(j[i] == b[i - a.len() - 1]);
        } else if i == a.len() + 1 + b.len() {
        } else {
            assert(j[i] == c[i - a.len() - 2 - b.len()]);
        }
    }
}

/// The parser reads back every valid whole-second time from year 0 on,
/// written as the feed writes timestamps (chrono's `%Y-%m-%dT%H:%M:%S`
/// followed by `Z`).
pub proof fn lemma_timestamp_round_trip(t: CivilTime)
    requires
        valid_civil(t),
        t.year >= 0,
        t.nanosecond == 0,
    ensures
        time_parse_spec(timestamp_text(t)) == TimeParseSpec::Parsed(t),
{
    reveal(time_parse_spec);
    let y = year_text(t.year);
    let mo = two_digits(t.month as nat);
    let d = two_digits(t.day as nat);
    let h = two_digits(t.hour as nat);
    let mi = two_digits(t.minute as nat);
    let s = two_digits(t.second as nat);
    lemma_year_text(t.year);
    lemma_two_digits(t.month as nat);
    lemma_two_digits(t.day as nat);
    lemma_two_digits(t.hour as nat);
    lemma_two_digits(t.minute as nat);
    lemma_two_digits(t.second as nat);
    let date = y + seq!['-'] + mo + seq!['-'] + d;
    let clock = h + seq![':'] + mi + seq![':'] + s;
    let text = timestamp_text(t);
    assert(text =~= date + seq!['T'] + (clock + seq!['Z']));
    // the split at 'T'
    lemma_join_avoids(y, mo, d, '-', 'T');
    lemma_join_avoids(h, mi, s, ':', 'T');
    let cz = clock + seq!['Z'];
    assert forall|i: int| 0 <= i < cz.len() implies cz[i] != 'T' by {
        if i < clock.len() {
            assert(cz[i] == clock[i]);
        }
    }
    lemma_split_join(date, cz, 'T');
    lemma_split_without_sep(date, 'T');
    lemma_split_without_sep(cz, 'T');
    let parts = split_at_char(text, 'T');
    assert(parts =~= seq![date, cz]);
    // the date
    lemma_split_join(y + seq!['-'] + mo, d, '-');
    lemma_split_join(y, mo, '-');
    lemma_numeric_avoids(y, '-');
    lemma_numeric_avoids(mo, '-');
    lemma_numeric_avoids(d, '-');
    let date_pieces = split_at_char(date, '-');
    assert(date_pieces =~= seq![y, mo, d]);
    assert(all_numbers(date_pieces));
    assert(number_values(date_pieces) =~= seq![t.year as u32, t.month as u32, t.day as u32]);
    // the clock
    assert(cz.drop_last() =~= clock);
    lemma_split_join(h + seq![':'] + mi, s, ':');
    lemma_split_join(h, mi, ':');
    lemma_numeric_avoids(h, ':');
    lemma_numeric_avoids(mi, ':');
    lemma_numeric_avoids(s, ':');
    let clock_pieces = split_at_char(clock, ':');
    assert(clock_pieces =~= seq![h, mi, s]);
    assert(all_numbers(clock_pieces));
    assert(number_values(clock_pieces) =~= seq![
        t.hour as u32,
        t.minute as u32,
        t.second as u32,
    ]);
}

/// The last character of a timestamp is dropped unread: any two ASCII
/// characters other than `T` there give the same outcome.
pub proof fn lemma_last_char_ignored(s: Seq<char>, a: char, b: char)
    requires
        a != 'T',
        b != 'T',
        (a as u32) < 128,
        (b as u32) < 128,
    ensures
        time_parse_spec(s.push(a)) == time_parse_spec(s.push(b)),
{
    reveal(time_parse_spec);
    lemma_split_nonempty(s, 'T');
    let p = split_at_char(s, 'T');
    let pa = split_at_char(s.push(a), 'T');
    let pb = split_at_char(s.push(b), 'T');
    assert(s.push(a).drop_last() =~= s);
    assert(s.push(b).drop_last() =~= s);
    assert(pa == p.update(p.len() - 1, p.last().push(a)));
    assert(pb == p.update(p.len() - 1, p.last().push(b)));
    if p.len() == 2 {
        assert(pa[0] == pb[0]);
        assert(pa[1].drop_last() =~= pb[1].drop_last());
        assert(pa[1].last() == a && pb[1].last() == b);
    }
}

fn padded_string(zeros: &str, n: u32) -> (s: String)
    requires
        zeros@.len() <= 3,
    ensures
        s@ == zeros@ + decimal(n as nat),
{
    let mut s = String::from_str(zeros);
    let digits = decimal_string(n);
    s.append(digits.as_str());
    s
}

fn two_digit_string(n: u32) -> (s: String)
    requires
        n < 100,
    ensures
        s@ == two_digits(n as nat),
{
    proof {
        reveal_strlit("0");
        reveal_strlit("");
    }
    if n < 10 {
        padded_string("0", n)
    } else {
        let s = padded_string("", n);
        assert(s@ =~= decimal(n as nat));
        s
    }
}

fn four_digit_string(n: u32) -> (s: String)
    ensures
        s@ == four_digits(n as nat),
{
    proof {
        reveal_strlit("000");
        reveal_strlit("00");
        reveal_strlit("0");
        reveal_strlit("");
    }
    if n < 10 {
        padded_string("000", n)
    } else if n < 100 {
        padded_string("00", n)
    } else if n < 1000 {
        padded_string("0", n)
    } else {
        let s = padded_string("", n);
        assert(s@ =~= decimal(n as nat));
        s
    }
}

fn year_string(y: i32) -> (s: String)
    ensures
        s@ == year_text(y as int),
{
    proof {
        reveal_strlit("+");
        reveal_strlit("-");
    }
    if 0 <= y && y <= 9999 {
        four_digit_string(y as u32)
    } else if y > 9999 {
        padded_string("+", y as u32)
    } else {
        let magnitude = (0 - (y as i64)) as u32;
        let mut s = String::from_str("-");
        let digits = four_digit_string(magnitude);
        s.append(digits.as_str());
        s
    }
}

/// Writes a launch time as the notification shows it (see
/// `launch_time_text`).
pub fn format_launch_time(t: &LaunchTime) -> (r: String)
    ensures
        r@ == launch_time_text(t@),
{
    proof {
        use_type_invariant(t);
        reveal_strlit("/");
        reveal_strlit(" ");
        reveal_strlit(":");
    }
    let mut r = two_digit_string(t.day);
    r.append("/");
    let month = two_digit_string(t.month);
    r.append(month.as_str());
    r.append("/");
    let year = year_string(t.year);
    r.append(year.as_str());
    r.append(" ");
    let hour = two_digit_string(t.hour);
    r.append(hour.as_str());
    r.append(":");
    let minute = two_digit_string(t.minute);
    r.append(minute.as_str());
    assert(r@ =~= launch_time_text(t@));
    r
}

/// `parse_time` gives the same outcome for a timestamp ending in any ASCII
/// character other than `T`: the same time, or the same error with the same
/// fields (the same number error, or the same split label and count).
pub proof fn lemma_parse_time_ignores_last_char(
    s: Seq<char>,
    a: char,
    b: char,
    ra: core::result::Result<LaunchTime, ParseTimeError>,
    rb: core::result::Result<LaunchTime, ParseTimeError>,
)
    requires
        a != 'T',
        b != 'T',
        (a as u32) < 128,
        (b as u32) < 128,
        parse_result_matches(ra, time_parse_spec(s.push(a))),
        parse_result_matches(rb, time_parse_spec(s.push(b))),
    ensures
        ra is Ok <==> rb is Ok,
        ra matches Ok(ta) ==> (rb matches Ok(tb) && ta@ == tb@),
        ra matches Err(ParseTimeError::ParseIntError(ea)) ==> (
        rb matches Err(ParseTimeError::ParseIntError(eb)) && ea == eb),
        ra matches Err(ParseTimeError::InvalidSplit(la, na)) ==> (
        rb matches Err(ParseTimeError::InvalidSplit(lb, nb)) && la@ == lb@ && na == nb),
{
    lemma_last_char_ignored(s, a, b);
}

} // verus!
