//! Org-style timestamps: active or inactive, possibly ranged, with optional
//! repeater and delay markers.

use vstd::prelude::*;
use crate::datetime::{
    before_day,
    on_day,
    plausible_day,
    within_week_of,
    DatetimeV,
    OrgDatetime,
    format_org_datetime_spec,
};
use crate::strutil::{dec_digits, zero_pad};

verus! {

/// An org timestamp.
#[derive(Debug, Hash)]
pub enum OrgTimestamp {
    Active { start: OrgDatetime, repeater: Option<String>, delay: Option<String> },
    Inactive { start: OrgDatetime, repeater: Option<String>, delay: Option<String> },
    ActiveRange { start: OrgDatetime, end: OrgDatetime, repeater: Option<String>, delay: Option<
        String,
    > },
    InactiveRange { start: OrgDatetime, end: OrgDatetime, repeater: Option<String>, delay: Option<
        String,
    > },
    Diary { value: String },
}

/// The mathematical image of a timestamp.
pub enum TimestampV {
    Active { start: DatetimeV, repeater: Option<Seq<char>>, delay: Option<Seq<char>> },
    Inactive { start: DatetimeV, repeater: Option<Seq<char>>, delay: Option<Seq<char>> },
    ActiveRange { start: DatetimeV, end: DatetimeV, repeater: Option<Seq<char>>, delay: Option<
        Seq<char>,
    > },
    InactiveRange { start: DatetimeV, end: DatetimeV, repeater: Option<Seq<char>>, delay: Option<
        Seq<char>,
    > },
    Diary { value: Seq<char> },
}

impl View for OrgTimestamp {
    type V = TimestampV;

    open spec fn view(&self) -> TimestampV {
        match self {
            OrgTimestamp::Active { start, repeater, delay } => TimestampV::Active {
                start: start@,
                repeater: repeater.deep_view(),
                delay: delay.deep_view(),
            },
            OrgTimestamp::Inactive { start, repeater, delay } => TimestampV::Inactive {
                start: start@,
                repeater: repeater.deep_view(),
                delay: delay.deep_view(),
            },
            OrgTimestamp::ActiveRange { start, end, repeater, delay } => TimestampV::ActiveRange {
                start: start@,
                end: end@,
                repeater: repeater.deep_view(),
                delay: delay.deep_view(),
            },
            OrgTimestamp::InactiveRange {
                start,
                end,
                repeater,
                delay,
            } => TimestampV::InactiveRange {
                start: start@,
                end: end@,
                repeater: repeater.deep_view(),
                delay: delay.deep_view(),
            },
            OrgTimestamp::Diary { value } => TimestampV::Diary { value: value@ },
        }
    }
}

impl DeepView for OrgTimestamp {
    type V = TimestampV;

    open spec fn deep_view(&self) -> TimestampV {
        self.view()
    }
}

/// The date value a parse result `t` yields: the parsed year, month and day,
/// the derived day name, and no time of day.
pub open spec fn parsed_date_matches(d: DatetimeV, t: (u16, u8, u8, u8)) -> bool {
    d.year == t.0 && d.month == t.1 && d.day == t.2 && d.dayname == crate::datetime::dayname_spec(
        t.3 as int,
    ) && d.hour is None && d.minute is None
}

/// The start date of a timestamp, if it has one.
pub open spec fn start_date_spec(ts: TimestampV) -> Option<DatetimeV> {
    match ts {
        TimestampV::Active { start, .. } => Some(start),
        TimestampV::Inactive { start, .. } => Some(start),
        TimestampV::ActiveRange { start, .. } => Some(start),
        TimestampV::InactiveRange { start, .. } => Some(start),
        TimestampV::Diary { .. } => None,
    }
}

/// The end date of a timestamp, if it is a range.
pub open spec fn end_date_spec(ts: TimestampV) -> Option<DatetimeV> {
    match ts {
        TimestampV::ActiveRange { end, .. } => Some(end),
        TimestampV::InactiveRange { end, .. } => Some(end),
        _ => None,
    }
}

impl OrgTimestamp {
    /// An active timestamp on a plain date.
    pub fn active_from_date(year: u16, month: u8, day: u8, dayname: &str) -> (r: OrgTimestamp)
        ensures
            r@ == (TimestampV::Active {
                start: DatetimeV {
                    year,
                    month,
                    day,
                    dayname: dayname@,
                    hour: None,
                    minute: None,
                },
                repeater: None,
                delay: None,
            }),
    {
        OrgTimestamp::Active {
            start: OrgDatetime::new(year, month, day, dayname),
            repeater: None,
            delay: None,
        }
    }

    /// An active timestamp on a date with a time of day.
    pub fn active_from_datetime(
        year: u16,
        month: u8,
        day: u8,
        dayname: &str,
        hour: u8,
        minute: u8,
    ) -> (r: OrgTimestamp)
        ensures
            r@ == (TimestampV::Active {
                start: DatetimeV {
                    year,
                    month,
                    day,
                    dayname: dayname@,
                    hour: Some(hour),
                    minute: Some(minute),
                },
                repeater: None,
                delay: None,
            }),
    {
        OrgTimestamp::Active {
            start: OrgDatetime::with_time(year, month, day, dayname, hour, minute),
            repeater: None,
            delay: None,
        }
    }

    /// An inactive timestamp on a plain date.
    pub fn inactive_from_date(year: u16, month: u8, day: u8, dayname: &str) -> (r: OrgTimestamp)
        ensures
            r@ == (TimestampV::Inactive {
                start: DatetimeV {
                    year,
                    month,
                    day,
                    dayname: dayname@,
                    hour: None,
                    minute: None,
                },
                repeater: None,
                delay: None,
            }),
    {
        OrgTimestamp::Inactive {
            start: OrgDatetime::new(year, month, day, dayname),
            repeater: None,
            delay: None,
        }
    }

    /// An active timestamp parsed from a `YYYY-MM-DD` string.
    pub fn active_from_string(date_str: &str) -> (r: Option<OrgTimestamp>)
        ensures
            match crate::datetime::date_parts_of(date_str@) {
                Some(t) => r matches Some(ts) && ts@ matches TimestampV::Active {
                    start,
                    repeater,
                    delay,
                } && start.year == t.0 && start.month == t.1 && start.day == t.2
                    && start.dayname == crate::datetime::dayname_spec(t.3 as int)
                    && start.hour is None && start.minute is None && repeater is None
                    && delay is None,
                None => r is None,
            },
    {
        match OrgDatetime::from_date_string(date_str) {
            Some(dt) => Some(OrgTimestamp::Active { start: dt, repeater: None, delay: None }),
            None => None,
        }
    }

    /// An inactive timestamp parsed from a `YYYY-MM-DD` string.
    pub fn inactive_from_string(date_str: &str) -> (r: Option<OrgTimestamp>)
        ensures
            match crate::datetime::date_parts_of(date_str@) {
                Some(t) => r matches Some(ts) && ts@ matches TimestampV::Inactive {
                    start,
                    repeater,
                    delay,
                } && start.year == t.0 && start.month == t.1 && start.day == t.2
                    && start.dayname == crate::datetime::dayname_spec(t.3 as int)
                    && start.hour is None && start.minute is None && repeater is None
                    && delay is None,
                None => r is None,
            },
    {
        match OrgDatetime::from_date_string(date_str) {
            Some(dt) => Some(OrgTimestamp::Inactive { start: dt, repeater: None, delay: None }),
            None => None,
        }
    }

    /// An active range parsed from two `YYYY-MM-DD` strings.
    pub fn active_range_from_strings(start_str: &str, end_str: &str) -> (r: Option<OrgTimestamp>)
        ensures
            r is Some <==> (crate::datetime::date_parts_of(start_str@) is Some
                && crate::datetime::date_parts_of(end_str@) is Some),
            match (crate::datetime::date_parts_of(start_str@), crate::datetime::date_parts_of(
                end_str@,
            )) {
                (Some(a), Some(b)) => r matches Some(ts) && ts@ matches TimestampV::ActiveRange {
                    start,
                    end,
                    repeater,
                    delay,
                } && parsed_date_matches(start, a) && parsed_date_matches(end, b)
                    && repeater is None && delay is None,
                _ => r is None,
            },
    {
        let start = match OrgDatetime::from_date_string(start_str) {
            Some(dt) => dt,
            None => {
                return None;
            },
        };
        let end = match OrgDatetime::from_date_string(end_str) {
            Some(dt) => dt,
            None => {
                return None;
            },
        };
        Some(OrgTimestamp::ActiveRange { start, end, repeater: None, delay: None })
    }

    /// An inactive range parsed from two `YYYY-MM-DD` strings.
    pub fn inactive_range_from_strings(start_str: &str, end_str: &str) -> (r: Option<OrgTimestamp>)
        ensures
            r is Some <==> (crate::datetime::date_parts_of(start_str@) is Some
                && crate::datetime::date_parts_of(end_str@) is Some),
            match (crate::datetime::date_parts_of(start_str@), crate::datetime::date_parts_of(
                end_str@,
            )) {
                (Some(a), Some(b)) => r matches Some(ts) && ts@ matches TimestampV::InactiveRange {
                    start,
                    end,
                    repeater,
                    delay,
                } && parsed_date_matches(start, a) && parsed_date_matches(end, b)
                    && repeater is None && delay is None,
                _ => r is None,
            },
    {
        let start = match OrgDatetime::from_date_string(start_str) {
            Some(dt) => dt,
            None => {
                return None;
            },
        };
        let end = match OrgDatetime::from_date_string(end_str) {
            Some(dt) => dt,
            None => {
                return None;
            },
        };
        Some(OrgTimestamp::InactiveRange { start, end, repeater: None, delay: None })
    }

    /// The start date, if this timestamp has one.
    pub fn start_date(&self) -> (r: Option<&OrgDatetime>)
        ensures
            match r {
                Some(d) => start_date_spec(self@) == Some(d@),
                None => start_date_spec(self@) is None,
            },
    {
        match self {
            OrgTimestamp::Active { start, .. } => Some(start),
            OrgTimestamp::Inactive { start, .. } => Some(start),
            OrgTimestamp::ActiveRange { start, .. } => Some(start),
            OrgTimestamp::InactiveRange { start, .. } => Some(start),
            OrgTimestamp::Diary { .. } => None,
        }
    }

    /// The end date, if this timestamp is a range.
    pub fn end_date(&self) -> (r: Option<&OrgDatetime>)
        ensures
            match r {
                Some(d) => end_date_spec(self@) == Some(d@),
                None => end_date_spec(self@) is None,
            },
    {
        match self {
            OrgTimestamp::ActiveRange { end, .. } => Some(end),
            OrgTimestamp::InactiveRange { end, .. } => Some(end),
            _ => None,
        }
    }

    /// Render the timestamp in org syntax: angle brackets around active
    /// timestamps, square brackets around inactive ones, a double-dash between
    /// the two dates of a range, and any repeater and delay before the closing
    /// bracket.
    pub fn format(&self) -> (r: String)
        ensures
            r@ == ts_format_spec(self),
    {
        match self {
            OrgTimestamp::Active { start, repeater, delay } => {
                let mut s = String::from_str("<");
                s.append(start.format_org_datetime().as_str());
                append_marker(&mut s, repeater);
                append_marker(&mut s, delay);
                s.append(">");
                proof {
                    reveal_strlit("<");
                    reveal_strlit(">");
                }
                assert(s@ =~= ts_format_spec(self));
                s
            },
            OrgTimestamp::Inactive { start, repeater, delay } => {
                let mut s = String::from_str("[");
                s.append(start.format_org_datetime().as_str());
                append_marker(&mut s, repeater);
                append_marker(&mut s, delay);
                s.append("]");
                proof {
                    reveal_strlit("[");
                    reveal_strlit("]");
                }
                assert(s@ =~= ts_format_spec(self));
                s
            },
            OrgTimestamp::ActiveRange { start, end, repeater, delay } => {
                let mut s = String::from_str("<");
                s.append(start.format_org_datetime().as_str());
                append_marker(&mut s, repeater);
                append_marker(&mut s, delay);
                s.append(">--<");
                s.append(end.format_org_datetime().as_str());
                s.append(">");
                proof {
                    reveal_strlit("<");
                    reveal_strlit(">--<");
                    reveal_strlit(">");
                }
                assert(s@ =~= ts_format_spec(self));
                s
            },
            OrgTimestamp::InactiveRange { start, end, repeater, delay } => {
                let mut s = String::from_str("[");
                s.append(start.format_org_datetime().as_str());
                append_marker(&mut s, repeater);
                append_marker(&mut s, delay);
                s.append("]--[");
                s.append(end.format_org_datetime().as_str());
                s.append("]");
                proof {
                    reveal_strlit("[");
                    reveal_strlit("]--[");
                    reveal_strlit("]");
                }
                assert(s@ =~= ts_format_spec(self));
                s
            },
            OrgTimestamp::Diary { value } => {
                let mut s = String::from_str("<%%(");
                s.append(value.as_str());
                s.append(")>");
                proof {
                    reveal_strlit("<%%(");
                    reveal_strlit(")>");
                }
                assert(s@ =~= ts_format_spec(self));
                s
            },
        }
    }

    /// Whether the start date is today, by the system clock; a timestamp
    /// without a start date never is.
    pub fn is_today(&self) -> (r: bool)
        ensures
            start_date_spec(self@) is None ==> r == false,
            start_date_spec(self@) matches Some(d) ==> exists|t: (i32, u8, u8)| #[trigger]
                plausible_day(t) && r == on_day(d, t),
    {
        match self.start_date() {
            Some(d) => d.is_today(),
            None => false,
        }
    }

    /// Whether the start date falls in the coming week, by the system clock;
    /// a timestamp without a start date never does.
    pub fn is_this_week(&self) -> (r: bool)
        ensures
            start_date_spec(self@) is None ==> r == false,
            start_date_spec(self@) matches Some(d) ==> exists|t: (i32, u8, u8)| #[trigger]
                plausible_day(t) && r == within_week_of(d, t),
    {
        match self.start_date() {
            Some(d) => d.is_this_week(),
            None => false,
        }
    }

    /// Whether the start date lies before today, by the system clock; a
    /// timestamp without a start date never does.
    pub fn is_overdue(&self) -> (r: bool)
        ensures
            start_date_spec(self@) is None ==> r == false,
            start_date_spec(self@) matches Some(d) ==> exists|t: (i32, u8, u8)| #[trigger]
                plausible_day(t) && r == before_day(d, t),
    {
        match self.start_date() {
            Some(d) => d.is_overdue(),
            None => false,
        }
    }

    /// The start date as `YYYY-MM-DD`, if there is one.
    pub fn to_date_string(&self) -> (r: Option<String>)
        ensures
            match start_date_spec(self@) {
                Some(d) => r matches Some(s) && s@ == ymd_string_spec(d),
                None => r is None,
            },
    {
        match self.start_date() {
            Some(d) => {
                let mut s = crate::strutil::u64_to_dec_pad(d.year as u64, 4);
                s.append("-");
                s.append(crate::strutil::u64_to_dec_pad(d.month as u64, 2).as_str());
                s.append("-");
                s.append(crate::strutil::u64_to_dec_pad(d.day as u64, 2).as_str());
                assert(s@ =~= ymd_string_spec(d@));
                Some(s)
            },
            None => None,
        }
    }

    /// A copy of this timestamp.
    pub fn copied(&self) -> (r: OrgTimestamp)
        ensures
            r@ == self@,
    {
        match self {
            OrgTimestamp::Active { start, repeater, delay } => OrgTimestamp::Active {
                start: start.copied(),
                repeater: clone_opt(repeater),
                delay: clone_opt(delay),
            },
            OrgTimestamp::Inactive { start, repeater, delay } => OrgTimestamp::Inactive {
                start: start.copied(),
                repeater: clone_opt(repeater),
                delay: clone_opt(delay),
            },
            OrgTimestamp::ActiveRange { start, end, repeater, delay } => OrgTimestamp::ActiveRange {
                start: start.copied(),
                end: end.copied(),
                repeater: clone_opt(repeater),
                delay: clone_opt(delay),
            },
            OrgTimestamp::InactiveRange {
                start,
                end,
                repeater,
                delay,
            } => OrgTimestamp::InactiveRange {
                start: start.copied(),
                end: end.copied(),
                repeater: clone_opt(repeater),
                delay: clone_opt(delay),
            },
            OrgTimestamp::Diary { value } => OrgTimestamp::Diary { value: value.clone() },
        }
    }
}

impl Clone for OrgTimestamp {
    /// Cloning keeps the whole timestamp.
    fn clone(&self) -> (r: OrgTimestamp)
        ensures
            r@ == self@,
    {
        self.copied()
    }
}

/// A copy of an optional string.
fn clone_opt(o: &Option<String>) -> (r: Option<String>)
    ensures
        r.deep_view() == o.deep_view(),
{
    match o {
        Some(s) => Some(s.clone()),
        None => None,
    }
}

/// A date as `YYYY-MM-DD`, each part zero-padded.
pub open spec fn ymd_string_spec(d: DatetimeV) -> Seq<char> {
    zero_pad(dec_digits(d.year as int), 4) + "-"@ + zero_pad(dec_digits(d.month as int), 2) + "-"@
        + zero_pad(dec_digits(d.day as int), 2)
}

/// An optional marker rendered as a space and its text, or nothing.
pub open spec fn marker_spec(m: Option<Seq<char>>) -> Seq<char> {
    match m {
        Some(t) => " "@ + t,
        None => Seq::empty(),
    }
}

/// The org rendering of a timestamp.
pub open spec fn ts_format_spec(ts: &OrgTimestamp) -> Seq<char> {
    match ts {
        OrgTimestamp::Active { start, repeater, delay } => "<"@ + format_org_datetime_spec(start)
            + marker_spec(repeater.deep_view()) + marker_spec(delay.deep_view()) + ">"@,
        OrgTimestamp::Inactive { start, repeater, delay } => "["@ + format_org_datetime_spec(start)
            + marker_spec(repeater.deep_view()) + marker_spec(delay.deep_view()) + "]"@,
        OrgTimestamp::ActiveRange { start, end, repeater, delay } => "<"@
            + format_org_datetime_spec(start) + marker_spec(repeater.deep_view()) + marker_spec(
            delay.deep_view(),
        ) + ">--<"@ + format_org_datetime_spec(end) + ">"@,
        OrgTimestamp::InactiveRange { start, end, repeater, delay } => "["@
            + format_org_datetime_spec(start) + marker_spec(repeater.deep_view()) + marker_spec(
            delay.deep_view(),
        ) + "]--["@ + format_org_datetime_spec(end) + "]"@,
        OrgTimestamp::Diary { value } => "<%%("@ + value@ + ")>"@,
    }
}

/// Append a marker to `s`: a space and the text when present, nothing
/// otherwise.
fn append_marker(s: &mut String, m: &Option<String>)
    ensures
        final(s)@ == old(s)@ + marker_spec(m.deep_view()),
{
    match m {
        Some(t) => {
            s.append(" ");
            s.append(t.as_str());
            assert(final(s)@ =~= old(s)@ + marker_spec(m.deep_view()));
        },
        None => {
            assert(final(s)@ =~= old(s)@ + marker_spec(m.deep_view()));
        },
    }
}

} // verus!
