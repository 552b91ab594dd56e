//! Instants without a time zone, the absolute timestamp parser and the
//! relative-range vocabulary ("today", "last 7 days", ...).

use crate::text::{Trim, lower_of, lowercase, same_text, trim, trim_quotes, trim_str};
use chrono::{Datelike, Local, NaiveDate, NaiveDateTime, NaiveTime, TimeDelta, Timelike};
use vstd::prelude::*;
use vstd::string::*;

verus! {

/// Day number of the first date that chrono's `NaiveDate` holds (-262143-01-01),
/// counting 0001-01-01 as day 1.
pub const MIN_DAY: i32 = -95746129;

/// Day number of the last date that chrono's `NaiveDate` holds (262142-12-31).
pub const MAX_DAY: i32 = 95745399;

/// A date and a time of day with no time zone attached.
///
/// `day` counts days with 0001-01-01 as day 1, `secs` is the second of that
/// day and `nanos` the fraction of the second; during a leap second `nanos`
/// runs from one to two billion.
#[derive(Clone, Copy, Debug, PartialEq, Eq, Structural, Hash)]
pub struct Timestamp {
    pub day: i32,
    pub secs: u32,
    pub nanos: u32,
}

/// A day number that chrono's `NaiveDate` can hold.
pub open spec fn day_in_range(day: int) -> bool {
    MIN_DAY <= day <= MAX_DAY
}

/// Midnight at the start of `day`.
pub open spec fn start_of_day(day: int) -> Timestamp {
    Timestamp { day: day as i32, secs: 0, nanos: 0 }
}

/// The last whole second of `day`, 23:59:59.
pub open spec fn end_of_day(day: int) -> Timestamp {
    Timestamp { day: day as i32, secs: 86399, nanos: 0 }
}

/// The instant `n` seconds (`n > 0`) before `t`, as chrono's `NaiveDateTime::checked_sub_signed`
/// computes it: an instant within a leap second counts from the start of the
/// following second, and the fraction of the second is kept. `None` when the
/// day leaves the range chrono holds.
pub open spec fn seconds_before(t: Timestamp, n: int) -> Option<Timestamp> {
    let leap = t.nanos >= 1_000_000_000;
    let s0: int = if leap { t.secs + 1 } else { t.secs as int };
    let f0: int = if leap { t.nanos - 1_000_000_000 } else { t.nanos as int };
    let total = t.day * 86400 + s0 - n;
    let day = total / 86400;
    if day_in_range(day) {
        Some(Timestamp { day: day as i32, secs: (total % 86400) as u32, nanos: f0 as u32 })
    } else {
        None
    }
}

impl Timestamp {
    /// A value that chrono's `NaiveDateTime` can hold.
    pub open spec fn wf(self) -> bool {
        &&& day_in_range(self.day as int)
        &&& self.secs < 86400
        &&& self.nanos < 2_000_000_000
        &&& self.nanos >= 1_000_000_000 ==> self.secs % 60 == 59
    }

    /// `self` comes no later than `o`: by day, then second, then fraction.
    pub open spec fn le(self, o: Timestamp) -> bool {
        ||| self.day < o.day
        ||| self.day == o.day && self.secs < o.secs
        ||| self.day == o.day && self.secs == o.secs && self.nanos <= o.nanos
    }

    /// The hour of the day, 0 to 23.
    pub open spec fn hour_of(self) -> int {
        self.secs as int / 3600
    }

    /// Whether `self` comes strictly before `o`.
    pub fn is_before(&self, o: &Timestamp) -> (r: bool)
        ensures
            r == !o.le(*self),
    {
        self.day < o.day || (self.day == o.day && (self.secs < o.secs || (self.secs == o.secs
            && self.nanos < o.nanos)))
    }

    /// The hour of the day.
    pub fn hour(&self) -> (r: u32)
        ensures
            r == self.hour_of(),
    {
        self.secs / 3600
    }

    /// The instant at `hour:minute:second` on `day`.
    pub fn at(day: i32, hour: u32, minute: u32, second: u32) -> (r: Timestamp)
        requires
            day_in_range(day as int),
            hour < 24,
            minute < 60,
            second < 60,
        ensures
            r == (Timestamp { day, secs: (hour * 3600 + minute * 60 + second) as u32, nanos: 0 }),
            r.wf(),
    {
        Timestamp { day, secs: hour * 3600 + minute * 60 + second, nanos: 0 }
    }
}

/// What chrono's `NaiveDateTime::parse_from_str` makes of a text under a format.
pub uninterp spec fn datetime_parsed(s: Seq<char>, fmt: Seq<char>) -> Option<Timestamp>;

/// What chrono's `NaiveDate::parse_from_str` makes of a text under a format:
/// the day number of the date read.
pub uninterp spec fn date_parsed(s: Seq<char>, fmt: Seq<char>) -> Option<i32>;

/// What chrono's `NaiveDateTime::format` writes for `%Y-%m-%d %H:%M`.
pub uninterp spec fn minute_text(t: Timestamp) -> Seq<char>;

/// Relies on chrono's `NaiveDateTime::parse_from_str`: the result depends on
/// the text and the format alone, and is a value `NaiveDateTime` holds.
#[verifier::external_body]
fn parse_datetime(s: &str, fmt: &str) -> (r: Option<Timestamp>)
    ensures
        r == datetime_parsed(s@, fmt@),
        r matches Some(t) ==> t.wf(),
{
    match NaiveDateTime::parse_from_str(s, fmt) {
        Ok(dt) => Some(Timestamp {
            day: dt.date().num_days_from_ce(),
            secs: dt.time().num_seconds_from_midnight(),
            nanos: dt.time().nanosecond(),
        }),
        Err(_) => None,
    }
}

/// Relies on chrono's `NaiveDate::parse_from_str`: the result depends on the
/// text and the format alone, and is a date `NaiveDate` holds.
#[verifier::external_body]
fn parse_date(s: &str, fmt: &str) -> (r: Option<i32>)
    ensures
        r == date_parsed(s@, fmt@),
        r matches Some(d) ==> day_in_range(d as int),
{
    match NaiveDate::parse_from_str(s, fmt) {
        Ok(d) => Some(d.num_days_from_ce()),
        Err(_) => None,
    }
}

/// Relies on chrono's `NaiveDateTime::format` with `%Y-%m-%d %H:%M`: the text
/// depends on the value alone.
#[verifier::external_body]
pub(crate) fn format_minutes(t: Timestamp) -> (r: String)
    requires
        t.wf(),
    ensures
        r@ == minute_text(t),
{
    let date = NaiveDate::from_num_days_from_ce_opt(t.day).unwrap();
    let time = NaiveTime::from_num_seconds_from_midnight_opt(t.secs, t.nanos).unwrap();
    date.and_time(time).format("%Y-%m-%d %H:%M").to_string()
}

/// Relies on chrono's `NaiveDateTime::checked_sub_signed` with a whole number
/// of seconds, whose result `seconds_before` states.
#[verifier::external_body]
fn shift_back(t: Timestamp, n: i64) -> (r: Option<Timestamp>)
    requires
        t.wf(),
        0 < n <= 3_000_000,
    ensures
        r == seconds_before(t, n as int),
{
    let date = NaiveDate::from_num_days_from_ce_opt(t.day).unwrap();
    let time = NaiveTime::from_num_seconds_from_midnight_opt(t.secs, t.nanos).unwrap();
    match date.and_time(time).checked_sub_signed(TimeDelta::seconds(n)) {
        Some(dt) => Some(Timestamp {
            day: dt.date().num_days_from_ce(),
            secs: dt.time().num_seconds_from_midnight(),
            nanos: dt.time().nanosecond(),
        }),
        None => None,
    }
}

/// Relies on chrono's `NaiveDate::pred_opt`: the day before, unless `day` is
/// the first date chrono holds.
#[verifier::external_body]
fn day_before(day: i32) -> (r: Option<i32>)
    requires
        day_in_range(day as int),
    ensures
        r == (if day > MIN_DAY {
            Some((day - 1) as i32)
        } else {
            None::<i32>
        }),
{
    match NaiveDate::from_num_days_from_ce_opt(day).unwrap().pred_opt() {
        Some(d) => Some(d.num_days_from_ce()),
        None => None,
    }
}

/// Relies on chrono's `Local::now().naive_local()`: the wall-clock time of the
/// local zone, a value `NaiveDateTime` holds.
#[verifier::external_body]
pub fn now_for_relative() -> (r: Timestamp)
    ensures
        r.wf(),
{
    let dt = Local::now().naive_local();
    Timestamp {
        day: dt.date().num_days_from_ce(),
        secs: dt.time().num_seconds_from_midnight(),
        nanos: dt.time().nanosecond(),
    }
}

/// The text a timestamp is read from: surrounding whitespace and double
/// quotes removed.
pub open spec fn time_text(s: Seq<char>) -> Seq<char> {
    trim(trim_quotes(trim(s)))
}

/// What the absolute parser reads from `s`: the first format that chrono
/// accepts, from the most precise down to a bare date; failing all, a date in
/// the first ten characters, at midnight.
pub open spec fn parsed_time(s: Seq<char>) -> Option<Timestamp> {
    let t = time_text(s);
    if t.len() == 0 {
        None
    } else if datetime_parsed(t, "%Y-%m-%dT%H:%M:%S%.3f"@) is Some {
        datetime_parsed(t, "%Y-%m-%dT%H:%M:%S%.3f"@)
    } else if datetime_parsed(t, "%Y-%m-%dT%H:%M:%S"@) is Some {
        datetime_parsed(t, "%Y-%m-%dT%H:%M:%S"@)
    } else if datetime_parsed(t, "%Y-%m-%d %H:%M:%S%.3f"@) is Some {
        datetime_parsed(t, "%Y-%m-%d %H:%M:%S%.3f"@)
    } else if datetime_parsed(t, "%Y-%m-%d %H:%M:%S"@) is Some {
        datetime_parsed(t, "%Y-%m-%d %H:%M:%S"@)
    } else if datetime_parsed(t, "%Y-%m-%d %H:%M"@) is Some {
        datetime_parsed(t, "%Y-%m-%d %H:%M"@)
    } else if datetime_parsed(t, "%Y-%m-%d"@) is Some {
        datetime_parsed(t, "%Y-%m-%d"@)
    } else if t.len() >= 10 && date_parsed(t.take(10), "%Y-%m-%d"@) is Some {
        Some(start_of_day(date_parsed(t.take(10), "%Y-%m-%d"@)->0 as int))
    } else {
        None
    }
}

/// Reads an absolute timestamp such as `2024-03-10 09:00:00` (see `parsed_time`).
pub fn parse_time(s: &str) -> (r: Option<Timestamp>)
    ensures
        r == parsed_time(s@),
        r matches Some(t) ==> t.wf(),
{
    let t = trim_str(trim_str(trim_str(s, Trim::Space), Trim::Quote), Trim::Space);
    let n = t.unicode_len();
    if n == 0 {
        return None;
    }
    let r = parse_datetime(t, "%Y-%m-%dT%H:%M:%S%.3f");
    if r.is_some() {
        return r;
    }
    let r = parse_datetime(t, "%Y-%m-%dT%H:%M:%S");
    if r.is_some() {
        return r;
    }
    let r = parse_datetime(t, "%Y-%m-%d %H:%M:%S%.3f");
    if r.is_some() {
        return r;
    }
    let r = parse_datetime(t, "%Y-%m-%d %H:%M:%S");
    if r.is_some() {
        return r;
    }
    let r = parse_datetime(t, "%Y-%m-%d %H:%M");
    if r.is_some() {
        return r;
    }
    let r = parse_datetime(t, "%Y-%m-%d");
    if r.is_some() {
        return r;
    }
    if n >= 10 {
        let head = t.substring_char(0, 10);
        assert(head@ == t@.take(10));
        if let Some(d) = parse_date(head, "%Y-%m-%d") {
            return Some(Timestamp { day: d, secs: 0, nanos: 0 });
        }
    }
    None
}

/// A pair of optional inclusive bounds: (start, end).
pub type TimeRange = (Option<Timestamp>, Option<Timestamp>);

/// From `n` seconds before `now` up to `now`.
pub open spec fn range_back(now: Timestamp, n: int) -> Option<TimeRange> {
    match seconds_before(now, n) {
        Some(s) => Some((Some(s), Some(now))),
        None => None,
    }
}

/// From midnight of the day `n` seconds before `now` up to `now`.
pub open spec fn range_back_to_midnight(now: Timestamp, n: int) -> Option<TimeRange> {
    match seconds_before(now, n) {
        Some(s) => Some((Some(start_of_day(s.day as int)), Some(now))),
        None => None,
    }
}

/// The range a word of the relative vocabulary stands for at instant `now`;
/// `None` for any other text.
pub open spec fn relative_range(word: Seq<char>, now: Timestamp) -> Option<TimeRange> {
    if word == "today"@ {
        Some((Some(start_of_day(now.day as int)), Some(end_of_day(now.day as int))))
    } else if word == "yesterday"@ {
        if now.day > MIN_DAY {
            Some((Some(start_of_day(now.day - 1)), Some(end_of_day(now.day - 1))))
        } else {
            None
        }
    } else if word == "last 24 hours"@ || word == "last 24h"@ || word == "24h"@ {
        range_back(now, 86400)
    } else if word == "last 7 days"@ || word == "last 7d"@ || word == "7d"@ {
        range_back_to_midnight(now, 604800)
    } else if word == "last 30 days"@ || word == "last 30d"@ || word == "30d"@ {
        range_back_to_midnight(now, 2592000)
    } else if word == "last 1 hour"@ || word == "last 1h"@ || word == "1h"@ {
        range_back(now, 3600)
    } else if word == "last 12 hours"@ || word == "last 12h"@ || word == "12h"@ {
        range_back(now, 43200)
    } else {
        None
    }
}

/// Both bounds of a range, where present, are values chrono holds.
pub open spec fn range_wf(r: TimeRange) -> bool {
    &&& r.0 matches Some(s) ==> s.wf()
    &&& r.1 matches Some(e) ==> e.wf()
}

fn back(now: Timestamp, n: i64, midnight: bool) -> (r: Option<TimeRange>)
    requires
        now.wf(),
        0 < n <= 3_000_000,
    ensures
        r == (if midnight {
            range_back_to_midnight(now, n as int)
        } else {
            range_back(now, n as int)
        }),
        r matches Some(x) ==> range_wf(x),
{
    match shift_back(now, n) {
        Some(s) => {
            if midnight {
                Some((Some(Timestamp { day: s.day, secs: 0, nanos: 0 }), Some(now)))
            } else {
                Some((Some(s), Some(now)))
            }
        },
        None => None,
    }
}

/// The range that a lowercase, trimmed word of the relative vocabulary stands
/// for at instant `now`.
pub fn relative_range_for(word: &str, now: Timestamp) -> (r: Option<TimeRange>)
    requires
        now.wf(),
    ensures
        r == relative_range(word@, now),
        r matches Some(x) ==> range_wf(x),
{
    if same_text(word, "today") {
        Some((Some(Timestamp { day: now.day, secs: 0, nanos: 0 }), Some(Timestamp { day: now.day, secs: 86399, nanos: 0 })))
    } else if same_text(word, "yesterday") {
        match day_before(now.day) {
            Some(y) => Some((Some(Timestamp { day: y, secs: 0, nanos: 0 }), Some(Timestamp { day: y, secs: 86399, nanos: 0 }))),
            None => None,
        }
    } else if same_text(word, "last 24 hours") || same_text(word, "last 24h") || same_text(word, "24h") {
        back(now, 86400, false)
    } else if same_text(word, "last 7 days") || same_text(word, "last 7d") || same_text(word, "7d") {
        back(now, 604800, true)
    } else if same_text(word, "last 30 days") || same_text(word, "last 30d") || same_text(word, "30d") {
        back(now, 2592000, true)
    } else if same_text(word, "last 1 hour") || same_text(word, "last 1h") || same_text(word, "1h") {
        back(now, 3600, false)
    } else if same_text(word, "last 12 hours") || same_text(word, "last 12h") || same_text(word, "12h") {
        back(now, 43200, false)
    } else {
        None
    }
}

/// Reads a relative range such as "Today" or " last 7 days ": the text is
/// trimmed and lowercased, then looked up in the vocabulary.
pub fn parse_relative_range(s: &str, now: Timestamp) -> (r: Option<TimeRange>)
    requires
        now.wf(),
    ensures
        r == relative_range(lower_of(trim(s@)), now),
        r matches Some(x) ==> range_wf(x),
{
    let t = trim_str(s, Trim::Space);
    let lowered = lowercase(t);
    relative_range_for(lowered.as_str(), now)
}

/// "today" covers the whole calendar day of the reference instant, from
/// midnight to 23:59:59.
pub proof fn lemma_today_is_whole_day(now: Timestamp)
    ensures
        relative_range("today"@, now) == Some(
            (Some(start_of_day(now.day as int)), Some(end_of_day(now.day as int))),
        ),
{
}

} // verus!
