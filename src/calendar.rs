//! Calendar dates and times of day as plain numbers.
use vstd::prelude::*;
use chrono::{Datelike, Timelike};

verus! {

/// The first day number that chrono can represent (year -262143, January 1st).
pub const MIN_DAY: i32 = -95746129;

/// The last day number that chrono can represent (year 262142, December 31st).
pub const MAX_DAY: i32 = 95745399;

pub const SECONDS_PER_DAY: u32 = 86400;

/// A calendar date, counted in days from the common era: 0001-01-01 is day 1,
/// a Monday.
#[derive(Clone, Copy, Debug, PartialEq, Eq, Structural)]
pub struct Date {
    pub days: i32,
}

/// A time of day, in seconds since midnight.
#[derive(Clone, Copy, Debug, PartialEq, Eq, Structural)]
pub struct Time {
    pub secs: u32,
}

/// Days since the last Monday: 0 for a Monday, 6 for a Sunday.
pub open spec fn weekday_index(days: int) -> int {
    (days - 1) % 7
}

/// The French name of a weekday, Monday first.
pub open spec fn french_weekday(i: int) -> Seq<char> {
    if i == 0 {
        "lundi"@
    } else if i == 1 {
        "mardi"@
    } else if i == 2 {
        "mercredi"@
    } else if i == 3 {
        "jeudi"@
    } else if i == 4 {
        "vendredi"@
    } else if i == 5 {
        "samedi"@
    } else {
        "dimanche"@
    }
}

/// The Monday on or before the given day.
pub open spec fn week_start(days: int) -> int {
    days - weekday_index(days)
}

/// How chrono writes a date (`YYYY-MM-DD` for years 0 to 9999).
pub uninterp spec fn iso_date_of(days: int) -> Seq<char>;

/// What chrono reads from a `YYYY-MM-DDTHH:MM:SS` timestamp: its day number
/// and its seconds since midnight, or nothing when the text is malformed.
pub uninterp spec fn parsed_timestamp_of(s: Seq<char>) -> Option<(int, int)>;

/// The two decimal digits of a number below 100.
pub open spec fn two_digits(n: int) -> Seq<char> {
    seq![(('0' as int) + n / 10) as char, (('0' as int) + n % 10) as char]
}

/// `HH:MM`.
pub open spec fn hm_text(secs: int) -> Seq<char> {
    two_digits(secs / 3600) + ":"@ + two_digits((secs % 3600) / 60)
}

/// `HH:MM:SS`.
pub open spec fn hms_text(secs: int) -> Seq<char> {
    hm_text(secs) + ":"@ + two_digits(secs % 60)
}

impl Date {
    pub open spec fn valid(self) -> bool {
        MIN_DAY <= self.days <= MAX_DAY
    }

    /// Whether the whole Monday-to-Sunday week of this date can be represented.
    pub open spec fn week_fits(self) -> bool {
        MIN_DAY <= week_start(self.days as int) && week_start(self.days as int) + 6 <= MAX_DAY
    }

    /// Days since the last Monday.
    pub fn weekday(&self) -> (r: u32)
        ensures
            r == weekday_index(self.days as int),
            r < 7,
    {
        let d = self.days as i64 - 1;
        let m = d % 7;
        let r = if m < 0 { m + 7 } else { m };
        r as u32
    }

    /// The date `n` days later.
    pub fn plus_days(&self, n: i32) -> (r: Date)
        requires
            self.valid(),
            MIN_DAY <= self.days + n <= MAX_DAY,
        ensures
            r.days == self.days + n,
            r.valid(),
    {
        Date { days: self.days + n }
    }

    /// The Monday and the Sunday of the week that holds this date.
    pub fn week_bounds(&self) -> (r: (Date, Date))
        requires
            self.week_fits(),
        ensures
            r.0.days == week_start(self.days as int),
            r.1.days == r.0.days + 6,
            r.0.valid(),
            r.1.valid(),
            weekday_index(r.0.days as int) == 0,
            weekday_index(r.1.days as int) == 6,
            r.0.days <= self.days <= r.1.days,
    {
        let w = self.weekday() as i32;
        let first = Date { days: self.days - w };
        let last = Date { days: first.days + 6 };
        assert(weekday_index(first.days as int) == 0);
        assert(weekday_index(last.days as int) == 6);
        (first, last)
    }

    /// `YYYY-MM-DD`.
    pub fn iso_text(&self) -> (r: String)
        requires
            self.valid(),
        ensures
            r@ == iso_date_of(self.days as int),
    {
        date_text(self.days)
    }

    /// The French name of the weekday, in lower case.
    pub fn french_day_name(&self) -> (r: String)
        requires
            self.valid(),
        ensures
            r@ == french_weekday(weekday_index(self.days as int)),
    {
        weekday_name_fr(self.days)
    }
}

/// Relies on chrono's `Display` for `NaiveDate`: the text depends on the date alone.
#[verifier::external_body]
fn date_text(days: i32) -> (r: String)
    requires
        MIN_DAY <= days <= MAX_DAY,
    ensures
        r@ == iso_date_of(days as int),
{
    chrono::NaiveDate::from_num_days_from_ce_opt(days).unwrap().to_string()
}

/// Relies on chrono's `format_localized("%A", Locale::fr_FR)`, which writes the
/// weekday's entry of the fr_FR `DAY` table.
#[verifier::external_body]
fn weekday_name_fr(days: i32) -> (r: String)
    requires
        MIN_DAY <= days <= MAX_DAY,
    ensures
        r@ == french_weekday(weekday_index(days as int)),
{
    chrono::NaiveDate::from_num_days_from_ce_opt(days)
        .unwrap()
        .format_localized("%A", chrono::Locale::fr_FR)
        .to_string()
}

/// Relies on chrono's `NaiveDateTime::parse_from_str` with the format
/// `%Y-%m-%dT%H:%M:%S`; a parsed value lies in chrono's range of dates and its
/// time of day is below a full day.
#[verifier::external_body]
fn parse_timestamp(s: &str) -> (r: Option<(i32, u32)>)
    ensures
        r matches Some(p) ==> (parsed_timestamp_of(s@) == Some((p.0 as int, p.1 as int))
            && MIN_DAY <= p.0 <= MAX_DAY && p.1 < SECONDS_PER_DAY),
        r is None ==> parsed_timestamp_of(s@) is None,
{
    match chrono::NaiveDateTime::parse_from_str(s, "%Y-%m-%dT%H:%M:%S") {
        Ok(t) => Some((t.date().num_days_from_ce(), t.time().num_seconds_from_midnight())),
        Err(_) => None,
    }
}

/// Reads the date of a `YYYY-MM-DDTHH:MM:SS` timestamp; the time of day is
/// checked for form and then dropped.
pub fn timestamp_date(s: &str) -> (r: Option<Date>)
    ensures
        r matches Some(d) ==> d.valid() && parsed_timestamp_of(s@) is Some
            && parsed_timestamp_of(s@).unwrap().0 == d.days,
        r is None <==> parsed_timestamp_of(s@) is None,
{
    match parse_timestamp(s) {
        Some(p) => Some(Date { days: p.0 }),
        None => None,
    }
}

/// The two digits of `n`.
fn push_two_digits(out: &mut String, n: u32)
    requires
        n < 100,
    ensures
        final(out)@ == old(out)@ + two_digits(n as int),
{
    let tens = digit_text(n / 10);
    let ones = digit_text(n % 10);
    out.append(tens);
    out.append(ones);
}

fn digit_text(d: u32) -> (r: &'static str)
    requires
        d < 10,
    ensures
        r@ == seq![(('0' as int) + d) as char],
{
    proof {
        reveal_strlit("0");
        reveal_strlit("1");
        reveal_strlit("2");
        reveal_strlit("3");
        reveal_strlit("4");
        reveal_strlit("5");
        reveal_strlit("6");
        reveal_strlit("7");
        reveal_strlit("8");
        reveal_strlit("9");
    }
    let r = if d == 0 {
        "0"
    } else if d == 1 {
        "1"
    } else if d == 2 {
        "2"
    } else if d == 3 {
        "3"
    } else if d == 4 {
        "4"
    } else if d == 5 {
        "5"
    } else if d == 6 {
        "6"
    } else if d == 7 {
        "7"
    } else if d == 8 {
        "8"
    } else {
        "9"
    };
    assert(r@ =~= seq![(('0' as int) + d) as char]);
    r
}

impl Time {
    pub open spec fn valid(self) -> bool {
        self.secs < SECONDS_PER_DAY
    }

    /// `HH:MM`.
    pub fn hm_text(&self) -> (r: String)
        requires
            self.valid(),
        ensures
            r@ == hm_text(self.secs as int),
    {
        let mut out = String::new();
        push_two_digits(&mut out, self.secs / 3600);
        out.append(":");
        push_two_digits(&mut out, (self.secs % 3600) / 60);
        out
    }

    /// `HH:MM:SS`, as chrono writes a whole-second time.
    pub fn hms_text(&self) -> (r: String)
        requires
            self.valid(),
        ensures
            r@ == hms_text(self.secs as int),
    {
        let mut out = self.hm_text();
        out.append(":");
        push_two_digits(&mut out, self.secs % 60);
        out
    }
}

} // verus!
