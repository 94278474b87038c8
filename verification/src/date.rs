use vstd::prelude::*;
use chrono::{Datelike, NaiveDate, Timelike};
use crate::text::{all_digits, decimal, digits_value, lemma_decimal_value};

verus! {

/// The earliest year a calendar date can have.
pub const MIN_YEAR: i32 = -262143;

/// The latest year a calendar date can have.
pub const MAX_YEAR: i32 = 262142;

/// The `strftime` pattern of dates in IMAP search keys, such as `12-Jan-2024`.
pub const IMAP_DATE_FORMAT: &'static str = "%d-%b-%Y";

/// Whether `year` is a leap year of the proleptic Gregorian calendar.
pub open spec fn is_leap_year(year: int) -> bool {
    (year % 4 == 0 && year % 100 != 0) || year % 400 == 0
}

/// The number of days of a month (1 to 12) of a year.
pub open spec fn days_in_month(year: int, month: int) -> int {
    if month == 2 {
        if is_leap_year(year) { 29 } else { 28 }
    } else if month == 4 || month == 6 || month == 9 || month == 11 {
        30
    } else {
        31
    }
}

/// Whether year, month and day name an existing calendar date in the range of years
/// that dates cover.
pub open spec fn valid_ymd(year: int, month: int, day: int) -> bool {
    &&& MIN_YEAR <= year <= MAX_YEAR
    &&& 1 <= month <= 12
    &&& 1 <= day <= days_in_month(year, month)
}

/// A calendar date of the proleptic Gregorian calendar.
#[derive(Clone, Copy, Debug, PartialEq, Eq, Structural)]
pub struct Date {
    year: i32,
    month: u32,
    day: u32,
}

/// A date and time of day, without time zone (UTC where the library produces one).
/// `nanosecond` goes up to 1_999_999_999 to represent a leap second.
#[derive(Clone, Copy, Debug, PartialEq, Eq, Structural)]
pub struct DateTime {
    pub year: i32,
    pub month: u32,
    pub day: u32,
    pub hour: u32,
    pub minute: u32,
    pub second: u32,
    pub nanosecond: u32,
}

impl Date {
    #[verifier::type_invariant]
    spec fn inv(self) -> bool {
        valid_ymd(self.year as int, self.month as int, self.day as int)
    }

    /// The year of the date.
    pub closed spec fn spec_year(self) -> i32 {
        self.year
    }

    /// The month of the date, 1 to 12.
    pub closed spec fn spec_month(self) -> u32 {
        self.month
    }

    /// The day of the month, from 1.
    pub closed spec fn spec_day(self) -> u32 {
        self.day
    }

    /// The year of the date.
    pub fn year(&self) -> (r: i32)
        ensures
            r == self.spec_year(),
    {
        self.year
    }

    /// The month of the date, 1 to 12.
    pub fn month(&self) -> (r: u32)
        ensures
            r == self.spec_month(),
    {
        self.month
    }

    /// The day of the month, from 1.
    pub fn day(&self) -> (r: u32)
        ensures
            r == self.spec_day(),
    {
        self.day
    }

    /// The date with the given year, month and day, or `None` where no such date exists.
    pub fn from_ymd_opt(year: i32, month: u32, day: u32) -> (r: Option<Date>)
        ensures
            r is Some <==> valid_ymd(year as int, month as int, day as int),
            r matches Some(d) ==> d.spec_year() == year && d.spec_month() == month
                && d.spec_day() == day,
    {
        naive_date_from_ymd(year, month, day)
    }
}

/// `NaiveDate::from_ymd_opt` gives a date exactly when year, month and day name an
/// existing date of the proleptic Gregorian calendar with a year in
/// `MIN_YEAR..=MAX_YEAR`; the date is converted to the library's `Date` field by field.
#[verifier::external_body]
fn naive_date_from_ymd(year: i32, month: u32, day: u32) -> (r: Option<Date>)
    ensures
        r is Some <==> valid_ymd(year as int, month as int, day as int),
        r matches Some(d) ==> d.spec_year() == year && d.spec_month() == month
            && d.spec_day() == day,
{
    NaiveDate::from_ymd_opt(year, month, day).map(
        |d| Date { year: d.year(), month: d.month(), day: d.day() },
    )
}

/// The English abbreviation of a month (1 to 12).
pub open spec fn month_abbreviation(month: int) -> Seq<char> {
    if month == 1 { "Jan"@ }
    else if month == 2 { "Feb"@ }
    else if month == 3 { "Mar"@ }
    else if month == 4 { "Apr"@ }
    else if month == 5 { "May"@ }
    else if month == 6 { "Jun"@ }
    else if month == 7 { "Jul"@ }
    else if month == 8 { "Aug"@ }
    else if month == 9 { "Sep"@ }
    else if month == 10 { "Oct"@ }
    else if month == 11 { "Nov"@ }
    else { "Dec"@ }
}

/// `s` preceded by zeros up to a length of `width`.
pub open spec fn zero_pad(s: Seq<char>, width: nat) -> Seq<char> {
    if s.len() < width {
        Seq::new((width - s.len()) as nat, |i: int| '0') + s
    } else {
        s
    }
}

/// The year as `%Y` writes it: four digits at least, and a sign before years
/// outside `0..=9999`.
pub open spec fn year_text(year: int) -> Seq<char> {
    if 0 <= year <= 9999 {
        zero_pad(decimal(year as nat), 4)
    } else if year < 0 {
        seq!['-'] + zero_pad(decimal((-year) as nat), 4)
    } else {
        seq!['+'] + zero_pad(decimal(year as nat), 4)
    }
}

/// A date in the form of IMAP search keys (`date` of RFC 3501): two-digit day,
/// English month abbreviation and year, joined by dashes.
pub open spec fn imap_date_text(year: int, month: int, day: int) -> Seq<char> {
    zero_pad(decimal(day as nat), 2) + "-"@ + month_abbreviation(month) + "-"@ + year_text(year)
}

/// `NaiveDate::format` with `IMAP_DATE_FORMAT` writes the day with two digits (`%d`),
/// the English month abbreviation (`%b`) and the year (`%Y`: at least four digits,
/// signed outside `0..=9999`), separated by dashes.
#[verifier::external_body]
fn format_naive_date(year: i32, month: u32, day: u32) -> (s: String)
    requires
        valid_ymd(year as int, month as int, day as int),
    ensures
        s@ == imap_date_text(year as int, month as int, day as int),
{
    NaiveDate::from_ymd_opt(year, month, day).unwrap().format(IMAP_DATE_FORMAT).to_string()
}

impl Date {
    /// The date as IMAP search keys write it, such as `12-Jan-2024`.
    pub open spec fn imap_text(self) -> Seq<char> {
        imap_date_text(self.spec_year() as int, self.spec_month() as int, self.spec_day() as int)
    }

    /// The date as IMAP search keys write it, such as `12-Jan-2024`.
    pub fn to_imap_string(&self) -> (s: String)
        ensures
            s@ == self.imap_text(),
            s@ == imap_date_text(
                self.spec_year() as int,
                self.spec_month() as int,
                self.spec_day() as int,
            ),
            valid_ymd(self.spec_year() as int, self.spec_month() as int, self.spec_day() as int),
    {
        proof { use_type_invariant(self); }
        format_naive_date(self.year, self.month, self.day)
    }
}

/// What `DateTime::parse_from_rfc2822` gives for a text, taken as UTC.
pub uninterp spec fn rfc2822_utc(s: Seq<char>) -> Option<DateTime>;

/// What `DateTime::parse_from_rfc3339` gives for a text, taken as UTC.
pub uninterp spec fn rfc3339_utc(s: Seq<char>) -> Option<DateTime>;

/// `DateTime::parse_from_rfc2822`, its result moved to UTC with `naive_utc` and taken
/// field by field; `None` where chrono reports an error. What it accepts is left to the
/// name `rfc2822_utc`.
#[verifier::external_body]
fn parse_rfc2822(s: &str) -> (r: Option<DateTime>)
    ensures
        r == rfc2822_utc(s@),
{
    let d = chrono::DateTime::parse_from_rfc2822(s).ok()?.naive_utc();
    Some(DateTime { year: d.year(), month: d.month(), day: d.day(), hour: d.hour(),
        minute: d.minute(), second: d.second(), nanosecond: d.nanosecond() })
}

/// `DateTime::parse_from_rfc3339`, its result moved to UTC with `naive_utc` and taken
/// field by field; `None` where chrono reports an error. What it accepts is left to the
/// name `rfc3339_utc`.
#[verifier::external_body]
fn parse_rfc3339(s: &str) -> (r: Option<DateTime>)
    ensures
        r == rfc3339_utc(s@),
{
    let d = chrono::DateTime::parse_from_rfc3339(s).ok()?.naive_utc();
    Some(DateTime { year: d.year(), month: d.month(), day: d.day(), hour: d.hour(),
        minute: d.minute(), second: d.second(), nanosecond: d.nanosecond() })
}

/// What `parse_datetime` gives: the RFC 2822 reading where there is one, else the
/// RFC 3339 reading.
pub open spec fn datetime_reading(s: Seq<char>) -> Option<DateTime> {
    match rfc2822_utc(s) {
        Some(d) => Some(d),
        None => rfc3339_utc(s),
    }
}

/// Parses a text as a date and time in UTC, trying RFC 2822 first and RFC 3339 next;
/// `None` when neither reads it.
pub fn parse_datetime(s: &str) -> (r: Option<DateTime>)
    ensures
        r == datetime_reading(s@),
        r is None <==> (rfc2822_utc(s@) is None && rfc3339_utc(s@) is None),
{
    match parse_rfc2822(s) {
        Some(d) => Some(d),
        None => parse_rfc3339(s),
    }
}

/// The month an English abbreviation names, read from its letters.
pub open spec fn month_of_abbreviation(s: Seq<char>) -> int {
    if s[0] == 'J' && s[1] == 'a' { 1 }
    else if s[0] == 'F' { 2 }
    else if s[0] == 'M' && s[2] == 'r' { 3 }
    else if s[0] == 'A' && s[1] == 'p' { 4 }
    else if s[0] == 'M' { 5 }
    else if s[0] == 'J' && s[2] == 'n' { 6 }
    else if s[0] == 'J' { 7 }
    else if s[0] == 'A' { 8 }
    else if s[0] == 'S' { 9 }
    else if s[0] == 'O' { 10 }
    else if s[0] == 'N' { 11 }
    else { 12 }
}

/// Each month has its own three-letter abbreviation: reading the abbreviation back
/// gives the month, so different months are never written alike.
pub proof fn lemma_month_abbreviation(month: int)
    requires
        1 <= month <= 12,
    ensures
        month_abbreviation(month).len() == 3,
        month_of_abbreviation(month_abbreviation(month)) == month,
{
    reveal_strlit("Jan");
    reveal_strlit("Feb");
    reveal_strlit("Mar");
    reveal_strlit("Apr");
    reveal_strlit("May");
    reveal_strlit("Jun");
    reveal_strlit("Jul");
    reveal_strlit("Aug");
    reveal_strlit("Sep");
    reveal_strlit("Oct");
    reveal_strlit("Nov");
    reveal_strlit("Dec");
}

proof fn lemma_zeros_value(k: nat)
    ensures
        digits_value(Seq::new(k, |i: int| '0')) == 0,
        all_digits(Seq::new(k, |i: int| '0')),
    decreases k,
{
    if k > 0 {
        lemma_zeros_value((k - 1) as nat);
        assert(Seq::new(k, |i: int| '0').drop_last() =~= Seq::new((k - 1) as nat, |i: int| '0'));
    }
}

proof fn lemma_leading_zeros_value(z: Seq<char>, s: Seq<char>)
    requires
        z == Seq::new(z.len(), |i: int| '0'),
    ensures
        digits_value(z + s) == digits_value(s),
    decreases s.len(),
{
    if s.len() == 0 {
        assert(z + s =~= z);
        lemma_zeros_value(z.len());
    } else {
        lemma_leading_zeros_value(z, s.drop_last());
        assert((z + s).drop_last() =~= z + s.drop_last());
    }
}

/// Padding the decimal rendering of a number with zeros keeps it a run of digits
/// standing for the number.
proof fn lemma_zero_pad_decimal(n: nat, width: nat)
    ensures
        all_digits(zero_pad(decimal(n), width)),
        digits_value(zero_pad(decimal(n), width)) == n,
        zero_pad(decimal(n), width).len() == if decimal(n).len() < width { width } else {
            decimal(n).len()
        },
{
    lemma_decimal_value(n);
    let d = decimal(n);
    if d.len() < width {
        let z = Seq::new((width - d.len()) as nat, |i: int| '0');
        lemma_zeros_value((width - d.len()) as nat);
        lemma_leading_zeros_value(z, d);
        assert forall|i: int| 0 <= i < (z + d).len() implies crate::text::is_digit(#[trigger] (z + d)[i]) by {
            if i < z.len() {
                assert((z + d)[i] == z[i]);
            } else {
                assert((z + d)[i] == d[i - z.len()]);
            }
        }
    }
}

proof fn lemma_decimal_len(n: nat)
    ensures
        n < 10 ==> decimal(n).len() == 1,
        n < 100 ==> decimal(n).len() <= 2,
        n < 1000 ==> decimal(n).len() <= 3,
        n < 10000 ==> decimal(n).len() <= 4,
    decreases n,
{
    if n >= 10 {
        lemma_decimal_len(n / 10);
    }
}

/// How every date is written in IMAP search keys: two digits standing for the day, a
/// dash, the three-letter abbreviation of the date's own month, a dash, then the year;
/// a year from 0 to 9999 is written as four digits standing for it.
pub proof fn lemma_imap_text_shape(d: Date)
    requires
        valid_ymd(d.spec_year() as int, d.spec_month() as int, d.spec_day() as int),
    ensures
        d.imap_text().len() >= 11,
        all_digits(d.imap_text().subrange(0, 2)),
        digits_value(d.imap_text().subrange(0, 2)) == d.spec_day(),
        d.imap_text()[2] == '-',
        d.imap_text().subrange(3, 6) == month_abbreviation(d.spec_month() as int),
        month_of_abbreviation(d.imap_text().subrange(3, 6)) == d.spec_month(),
        d.imap_text()[6] == '-',
        d.imap_text().subrange(7, d.imap_text().len() as int) == year_text(d.spec_year() as int),
        0 <= d.spec_year() <= 9999 ==> {
            &&& d.imap_text().len() == 11
            &&& all_digits(d.imap_text().subrange(7, 11))
            &&& digits_value(d.imap_text().subrange(7, 11)) == d.spec_year()
        },
{
    reveal_strlit("-");
    let day = d.spec_day() as nat;
    let m = d.spec_month() as int;
    let y = d.spec_year() as int;
    lemma_decimal_len(day);
    lemma_zero_pad_decimal(day, 2);
    lemma_month_abbreviation(m);
    let dd = zero_pad(decimal(day), 2);
    let ab = month_abbreviation(m);
    let yt = year_text(y);
    assert(dd.len() == 2);
    if 0 <= y <= 9999 {
        lemma_decimal_len(y as nat);
        lemma_zero_pad_decimal(y as nat, 4);
        assert(yt.len() == 4);
    } else if y < 0 {
        lemma_zero_pad_decimal((-y) as nat, 4);
    } else {
        lemma_zero_pad_decimal(y as nat, 4);
    }
    assert(yt.len() >= 4);
    let t = d.imap_text();
    assert(t =~= dd + "-"@ + ab + "-"@ + yt);
    assert(t.subrange(0, 2) =~= dd);
    assert(t.subrange(3, 6) =~= ab);
    assert(t.subrange(7, t.len() as int) =~= yt);
    if 0 <= y <= 9999 {
        assert(t.subrange(7, 11) =~= yt);
    }
}

} // verus!
