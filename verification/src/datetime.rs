//! Calendar dates and times as plain values, with org-style formatting and
//! comparisons against the current day.

use vstd::prelude::*;
use crate::strutil::{dec_digits, zero_pad};

verus! {

/// A calendar date, with an optional time of day and the day's name.
#[derive(Debug, PartialEq, Hash)]
pub struct OrgDatetime {
    pub year: u16,
    pub month: u8,
    pub day: u8,
    pub dayname: String,
    pub hour: Option<u8>,
    pub minute: Option<u8>,
}

/// What chrono's date parser returns for a string, as plain year, month, day
/// and days-from-Monday values.
pub uninterp spec fn date_parts_of(s: Seq<char>) -> Option<(u16, u8, u8, u8)>;

/// What chrono's datetime parser returns for a string: year, month, day,
/// days-from-Monday, hour and minute.
pub uninterp spec fn datetime_parts_of(s: Seq<char>) -> Option<(u16, u8, u8, u8, u8, u8)>;

/// Relies on chrono's `NaiveDate::parse_from_str` with format `%Y-%m-%d` and
/// the `Datelike`/`weekday` accessors: the result depends on the string alone;
/// a parsed date has month 1..=12, day 1..=31 and days-from-Monday at most 6.
#[verifier::external_body]
fn parse_ymd(s: &str) -> (r: Option<(u16, u8, u8, u8)>)
    ensures
        r == date_parts_of(s@),
        match r {
            Some(t) => 1 <= t.1 <= 12 && 1 <= t.2 <= 31 && t.3 <= 6,
            None => true,
        },
{
    match chrono::NaiveDate::parse_from_str(s, "%Y-%m-%d") {
        Ok(d) => Some((
            chrono::Datelike::year(&d) as u16,
            chrono::Datelike::month(&d) as u8,
            chrono::Datelike::day(&d) as u8,
            chrono::Datelike::weekday(&d).num_days_from_monday() as u8,
        )),
        Err(_) => None,
    }
}

/// Relies on chrono's `NaiveDateTime::parse_from_str` with format
/// `%Y-%m-%dT%H:%M:%S` and its accessors: the result depends on the string
/// alone; a parsed value has month 1..=12, day 1..=31, days-from-Monday at
/// most 6, hour at most 23 and minute at most 59.
#[verifier::external_body]
fn parse_ymd_hms(s: &str) -> (r: Option<(u16, u8, u8, u8, u8, u8)>)
    ensures
        r == datetime_parts_of(s@),
        match r {
            Some(t) => 1 <= t.1 <= 12 && 1 <= t.2 <= 31 && t.3 <= 6 && t.4 <= 23 && t.5 <= 59,
            None => true,
        },
{
    match chrono::NaiveDateTime::parse_from_str(s, "%Y-%m-%dT%H:%M:%S") {
        Ok(dt) => Some((
            chrono::Datelike::year(&dt) as u16,
            chrono::Datelike::month(&dt) as u8,
            chrono::Datelike::day(&dt) as u8,
            chrono::Datelike::weekday(&dt).num_days_from_monday() as u8,
            chrono::Timelike::hour(&dt) as u8,
            chrono::Timelike::minute(&dt) as u8,
        )),
        Err(_) => None,
    }
}

/// Relies on chrono's `Local::now` and `date_naive`: the current local
/// calendar date, whose month is 1..=12 and day 1..=31.
#[verifier::external_body]
fn today_ymd() -> (r: (i32, u8, u8))
    ensures
        1 <= r.1 <= 12,
        1 <= r.2 <= 31,
{
    let d = chrono::Local::now().date_naive();
    (
        chrono::Datelike::year(&d),
        chrono::Datelike::month(&d) as u8,
        chrono::Datelike::day(&d) as u8,
    )
}

/// The English short day name for a days-from-Monday index.
pub open spec fn dayname_spec(w: int) -> Seq<char> {
    if w == 0 {
        "Mon"@
    } else if w == 1 {
        "Tue"@
    } else if w == 2 {
        "Wed"@
    } else if w == 3 {
        "Thu"@
    } else if w == 4 {
        "Fri"@
    } else if w == 5 {
        "Sat"@
    } else {
        "Sun"@
    }
}

/// The short day name for a days-from-Monday index.
fn dayname_str(w: u8) -> (r: &'static str)
    ensures
        r@ == dayname_spec(w as int),
{
    if w == 0 {
        "Mon"
    } else if w == 1 {
        "Tue"
    } else if w == 2 {
        "Wed"
    } else if w == 3 {
        "Thu"
    } else if w == 4 {
        "Fri"
    } else if w == 5 {
        "Sat"
    } else {
        "Sun"
    }
}

/// Days since the civil epoch 1970-01-01 of a Gregorian calendar date.
pub open spec fn civil_day(y: int, m: int, d: int) -> int {
    let yy = if m <= 2 {
        y - 1
    } else {
        y
    };
    let era = yy / 400;
    let yoe = yy - era * 400;
    let mp = (m + 9) % 12;
    let doy = (153 * mp + 2) / 5 + d - 1;
    let doe = yoe * 365 + yoe / 4 - yoe / 100 + doy;
    era * 146097 + doe - 719468
}

/// Days since the civil epoch of the date `(y, m, d)`.
pub fn civil_day_exec(y: i64, m: i64, d: i64) -> (r: i64)
    requires
        -0x80000000 <= y <= 0x7fffffff,
        0 <= m <= 1000,
        0 <= d <= 1000,
    ensures
        r == civil_day(y as int, m as int, d as int),
{
    let yy: i64 = if m <= 2 {
        y - 1
    } else {
        y
    };
    let era: i64 = match yy.checked_div_euclid(400) {
        Some(e) => e,
        None => {
            proof {
                assert(false);
            }
            0
        },
    };
    let yoe: i64 = yy - era * 400;
    assert(0 <= yoe < 400) by {
        vstd::arithmetic::div_mod::lemma_fundamental_div_mod(yy as int, 400);
    };
    let mp: i64 = (m + 9) % 12;
    let doy: i64 = (153 * mp + 2) / 5 + d - 1;
    let doe: i64 = yoe * 365 + yoe / 4 - yoe / 100 + doy;
    era * 146097 + doe - 719468
}

/// The mathematical image of a date value.
pub struct DatetimeV {
    pub year: u16,
    pub month: u8,
    pub day: u8,
    pub dayname: Seq<char>,
    pub hour: Option<u8>,
    pub minute: Option<u8>,
}

impl View for OrgDatetime {
    type V = DatetimeV;

    open spec fn view(&self) -> DatetimeV {
        DatetimeV {
            year: self.year,
            month: self.month,
            day: self.day,
            dayname: self.dayname@,
            hour: self.hour,
            minute: self.minute,
        }
    }
}

impl DeepView for OrgDatetime {
    type V = DatetimeV;

    open spec fn deep_view(&self) -> DatetimeV {
        self.view()
    }
}

/// The org date rendering `YYYY-MM-DD Day`.
pub open spec fn format_org_date_spec(dt: &OrgDatetime) -> Seq<char> {
    zero_pad(dec_digits(dt.year as int), 4) + "-"@ + zero_pad(dec_digits(dt.month as int), 2)
        + "-"@ + zero_pad(dec_digits(dt.day as int), 2) + " "@ + dt.dayname@
}

/// The org datetime rendering: the date, then ` HH:MM` when a time is present.
pub open spec fn format_org_datetime_spec(dt: &OrgDatetime) -> Seq<char> {
    match (dt.hour, dt.minute) {
        (Some(h), Some(mi)) => format_org_date_spec(dt) + " "@ + zero_pad(
            dec_digits(h as int),
            2,
        ) + ":"@ + zero_pad(dec_digits(mi as int), 2),
        _ => format_org_date_spec(dt),
    }
}

/// `t` is a plausible calendar day: month 1..=12, day 1..=31.
pub open spec fn plausible_day(t: (i32, u8, u8)) -> bool {
    1 <= t.1 <= 12 && 1 <= t.2 <= 31
}

/// `dt` falls on the day `t`.
pub open spec fn on_day(dt: DatetimeV, t: (i32, u8, u8)) -> bool {
    dt.year as int == t.0 as int && dt.month == t.1 && dt.day == t.2
}

/// `dt` lies on `t` or within the six days after it.
pub open spec fn within_week_of(dt: DatetimeV, t: (i32, u8, u8)) -> bool {
    let diff = civil_day(dt.year as int, dt.month as int, dt.day as int) - civil_day(
        t.0 as int,
        t.1 as int,
        t.2 as int,
    );
    0 <= diff < 7
}

/// `dt` lies strictly before the day `t`.
pub open spec fn before_day(dt: DatetimeV, t: (i32, u8, u8)) -> bool {
    civil_day(dt.year as int, dt.month as int, dt.day as int) < civil_day(
        t.0 as int,
        t.1 as int,
        t.2 as int,
    )
}

impl OrgDatetime {
    /// A date without a time of day.
    pub fn new(year: u16, month: u8, day: u8, dayname: &str) -> (r: OrgDatetime)
        ensures
            r.year == year,
            r.month == month,
            r.day == day,
            r.dayname@ == dayname@,
            r.hour is None,
            r.minute is None,
    {
        OrgDatetime { year, month, day, dayname: dayname.to_owned(), hour: None, minute: None }
    }

    /// A date with a time of day.
    pub fn with_time(year: u16, month: u8, day: u8, dayname: &str, hour: u8, minute: u8) -> (r:
        OrgDatetime)
        ensures
            r.year == year,
            r.month == month,
            r.day == day,
            r.dayname@ == dayname@,
            r.hour == Some(hour),
            r.minute == Some(minute),
    {
        OrgDatetime {
            year,
            month,
            day,
            dayname: dayname.to_owned(),
            hour: Some(hour),
            minute: Some(minute),
        }
    }

    /// Parse a date of the form `YYYY-MM-DD`; the day name is derived from the
    /// parsed date.
    pub fn from_date_string(date_str: &str) -> (r: Option<OrgDatetime>)
        ensures
            match date_parts_of(date_str@) {
                Some(t) => r matches Some(dt) && dt.year == t.0 && dt.month == t.1 && dt.day
                    == t.2 && dt.dayname@ == dayname_spec(t.3 as int) && dt.hour is None
                    && dt.minute is None,
                None => r is None,
            },
    {
        match parse_ymd(date_str) {
            Some((y, m, d, w)) => Some(
                OrgDatetime {
                    year: y,
                    month: m,
                    day: d,
                    dayname: dayname_str(w).to_owned(),
                    hour: None,
                    minute: None,
                },
            ),
            None => None,
        }
    }

    /// Parse a datetime of the form `YYYY-MM-DDThh:mm:ss`; the day name is
    /// derived from the parsed date.
    pub fn from_datetime_string(datetime_str: &str) -> (r: Option<OrgDatetime>)
        ensures
            match datetime_parts_of(datetime_str@) {
                Some(t) => r matches Some(dt) && dt.year == t.0 && dt.month == t.1 && dt.day
                    == t.2 && dt.dayname@ == dayname_spec(t.3 as int) && dt.hour == Some(t.4)
                    && dt.minute == Some(t.5),
                None => r is None,
            },
    {
        match parse_ymd_hms(datetime_str) {
            Some((y, m, d, w, h, mi)) => Some(
                OrgDatetime {
                    year: y,
                    month: m,
                    day: d,
                    dayname: dayname_str(w).to_owned(),
                    hour: Some(h),
                    minute: Some(mi),
                },
            ),
            None => None,
        }
    }

    /// Render as `YYYY-MM-DD Day`.
    pub fn format_org_date(&self) -> (r: String)
        ensures
            r@ == format_org_date_spec(self),
    {
        let mut s = crate::strutil::u64_to_dec_pad(self.year as u64, 4);
        s.append("-");
        s.append(crate::strutil::u64_to_dec_pad(self.month as u64, 2).as_str());
        s.append("-");
        s.append(crate::strutil::u64_to_dec_pad(self.day as u64, 2).as_str());
        s.append(" ");
        s.append(self.dayname.as_str());
        assert(s@ =~= format_org_date_spec(self));
        s
    }

    /// Render as `YYYY-MM-DD Day hh:mm`, or as the date alone when no time is
    /// present.
    pub fn format_org_datetime(&self) -> (r: String)
        ensures
            r@ == format_org_datetime_spec(self),
    {
        match (self.hour, self.minute) {
            (Some(h), Some(mi)) => {
                let mut s = self.format_org_date();
                s.append(" ");
                s.append(crate::strutil::u64_to_dec_pad(h as u64, 2).as_str());
                s.append(":");
                s.append(crate::strutil::u64_to_dec_pad(mi as u64, 2).as_str());
                assert(s@ =~= format_org_datetime_spec(self));
                s
            },
            _ => self.format_org_date(),
        }
    }

    /// Whether this date falls on the day `(y, m, d)`.
    pub fn is_on_date(&self, y: i32, m: u8, d: u8) -> (r: bool)
        ensures
            r == (self.year as int == y as int && self.month == m && self.day == d),
    {
        self.year as i32 == y && self.month == m && self.day == d
    }

    /// Whether this date is today. The current date comes from the system
    /// clock; the result says this date equals one plausible calendar date.
    pub fn is_today(&self) -> (r: bool)
        ensures
            exists|t: (i32, u8, u8)| #[trigger]
                plausible_day(t) && r == on_day(self@, t),
    {
        let t = today_ymd();
        let r = self.is_on_date(t.0, t.1, t.2);
        assert(plausible_day(t) && r == on_day(self@, t));
        r
    }

    /// Whether this date lies within the week starting at day `(y, m, d)`:
    /// on that day or up to six days after it.
    pub fn is_within_week_of(&self, y: i32, m: u8, d: u8) -> (r: bool)
        ensures
            r == {
                let diff = civil_day(self.year as int, self.month as int, self.day as int)
                    - civil_day(y as int, m as int, d as int);
                0 <= diff < 7
            },
    {
        let base = civil_day_exec(y as i64, m as i64, d as i64);
        let own = civil_day_exec(self.year as i64, self.month as i64, self.day as i64);
        let diff = own - base;
        0 <= diff && diff < 7
    }

    /// Whether this date falls in the coming week: today or within the next
    /// six days, by the system clock.
    pub fn is_this_week(&self) -> (r: bool)
        ensures
            exists|t: (i32, u8, u8)| #[trigger]
                plausible_day(t) && r == within_week_of(self@, t),
    {
        let t = today_ymd();
        let r = self.is_within_week_of(t.0, t.1, t.2);
        assert(plausible_day(t) && r == within_week_of(self@, t));
        r
    }

    /// Whether this date lies strictly before the day `(y, m, d)`.
    pub fn is_before_date(&self, y: i32, m: u8, d: u8) -> (r: bool)
        ensures
            r == (civil_day(self.year as int, self.month as int, self.day as int) < civil_day(
                y as int,
                m as int,
                d as int,
            )),
    {
        let own = civil_day_exec(self.year as i64, self.month as i64, self.day as i64);
        let base = civil_day_exec(y as i64, m as i64, d as i64);
        own < base
    }

    /// Whether this date lies strictly before today, by the system clock.
    pub fn is_overdue(&self) -> (r: bool)
        ensures
            exists|t: (i32, u8, u8)| #[trigger]
                plausible_day(t) && r == before_day(self@, t),
    {
        let t = today_ymd();
        let r = self.is_before_date(t.0, t.1, t.2);
        assert(plausible_day(t) && r == before_day(self@, t));
        r
    }

    /// A copy of this date.
    pub fn copied(&self) -> (r: OrgDatetime)
        ensures
            r@ == self@,
    {
        OrgDatetime {
            year: self.year,
            month: self.month,
            day: self.day,
            dayname: self.dayname.clone(),
            hour: self.hour,
            minute: self.minute,
        }
    }
}

impl Clone for OrgDatetime {
    /// Cloning keeps every field.
    fn clone(&self) -> (r: OrgDatetime)
        ensures
            r@ == self@,
    {
        self.copied()
    }
}

} // verus!
