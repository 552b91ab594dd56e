//! The time-range picker: presets, the date-then-hour chain that builds a
//! custom range from the data, typed ranges, and stepping back through it all.

use crate::filters::{hours_sorted, is_hour_list, unique_hours_for_date};
use crate::session::{first_of, step_down, step_up, select_next, select_previous, App, Mode, Notice, TimeFilterSub};
use crate::text::{Trim, lower_of, lowercase, pop_char, push_char, split_once, split_once_nocase, split_once_nocase_str, split_once_str, strip_prefix_nocase, strip_prefix_nocase_str, same_text, trim, trim_str};
use crate::time::{
    day_in_range, format_minutes, minute_text, now_for_relative, parse_relative_range, parse_time,
    parsed_time, relative_range, relative_range_for, Timestamp,
};
use vstd::prelude::*;
use vstd::string::*;

verus! {

/// Number of entries in the preset list.
pub const TIME_PRESET_COUNT: usize = 7;

/// Position of "Custom (pick dates from data)" in the preset list.
pub const PICK_DATES: usize = 5;

/// Position of "Custom (type range)..." in the preset list.
pub const TYPE_RANGE: usize = 6;

/// The label of preset `i`.
pub open spec fn preset_label(i: int) -> Seq<char> {
    if i == 0 {
        "Today"@
    } else if i == 1 {
        "Yesterday"@
    } else if i == 2 {
        "Last 24 hours"@
    } else if i == 3 {
        "Last 7 days"@
    } else if i == 4 {
        "Last 30 days"@
    } else if i == 5 {
        "Custom (pick dates from data)"@
    } else {
        "Custom (type range)..."@
    }
}

/// The label of preset `i` as shown in the list.
pub fn time_preset_label(i: usize) -> (r: &'static str)
    requires
        i < TIME_PRESET_COUNT,
    ensures
        r@ == preset_label(i as int),
{
    if i == 0 {
        "Today"
    } else if i == 1 {
        "Yesterday"
    } else if i == 2 {
        "Last 24 hours"
    } else if i == 3 {
        "Last 7 days"
    } else if i == 4 {
        "Last 30 days"
    } else if i == 5 {
        "Custom (pick dates from data)"
    } else {
        "Custom (type range)..."
    }
}

/// The preset labels, in list order.
pub fn time_presets() -> (r: Vec<&'static str>)
    ensures
        r@.len() == TIME_PRESET_COUNT,
        forall|i: int| 0 <= i < TIME_PRESET_COUNT ==> #[trigger] r@[i]@ == preset_label(i),
{
    let mut out: Vec<&'static str> = Vec::new();
    let mut i: usize = 0;
    while i < TIME_PRESET_COUNT
        invariant
            i <= TIME_PRESET_COUNT,
            out@.len() == i,
            forall|j: int| 0 <= j < i ==> #[trigger] out@[j]@ == preset_label(j),
        decreases TIME_PRESET_COUNT - i,
    {
        out.push(time_preset_label(i));
        i += 1;
    }
    out
}

/// The relative-vocabulary word that preset `i` (one of the first five) resolves.
pub open spec fn preset_keyword(i: int) -> Seq<char> {
    if i == 0 {
        "today"@
    } else if i == 1 {
        "yesterday"@
    } else if i == 2 {
        "last 24 hours"@
    } else if i == 3 {
        "last 7 days"@
    } else {
        "last 30 days"@
    }
}

fn preset_keyword_str(i: usize) -> (r: &'static str)
    requires
        i < PICK_DATES,
    ensures
        r@ == preset_keyword(i as int),
{
    if i == 0 {
        "today"
    } else if i == 1 {
        "yesterday"
    } else if i == 2 {
        "last 24 hours"
    } else if i == 3 {
        "last 7 days"
    } else {
        "last 30 days"
    }
}

/// The notice for an applied range, by which bounds it has.
pub open spec fn range_notice(start: Option<Timestamp>, end: Option<Timestamp>, n: usize) -> Notice {
    match (start, end) {
        (Some(s), Some(e)) => Notice::Range(s, e, n),
        (Some(s), None) => Notice::From(s, n),
        (None, Some(e)) => Notice::Before(e, n),
        (None, None) => Notice::Count(n),
    }
}

fn range_notice_of(start: Option<Timestamp>, end: Option<Timestamp>, n: usize) -> (r: Notice)
    ensures
        r == range_notice(start, end, n),
{
    match (start, end) {
        (Some(s), Some(e)) => Notice::Range(s, e, n),
        (Some(s), None) => Notice::From(s, n),
        (None, Some(e)) => Notice::Before(e, n),
        (None, None) => Notice::Count(n),
    }
}

/// The active range written as `start to end`, each bound to the minute.
pub open spec fn range_text(start: Option<Timestamp>, end: Option<Timestamp>) -> Seq<char> {
    let a = match start {
        Some(s) => minute_text(s),
        None => Seq::empty(),
    };
    let b = if end is Some {
        " to "@
    } else {
        Seq::empty()
    };
    let c = match end {
        Some(e) => minute_text(e),
        None => Seq::empty(),
    };
    a + b + c
}

/// The days of `s` on or after day `d`, in order.
pub open spec fn days_from(s: Seq<i32>, d: int) -> Seq<i32>
    decreases s.len(),
{
    if s.len() == 0 {
        Seq::empty()
    } else {
        let r = days_from(s.drop_last(), d);
        if s.last() >= d {
            r.push(s.last())
        } else {
            r
        }
    }
}

/// The hours of `s` at or after hour `h`, in order.
pub open spec fn hours_from(s: Seq<u32>, h: int) -> Seq<u32>
    decreases s.len(),
{
    if s.len() == 0 {
        Seq::empty()
    } else {
        let r = hours_from(s.drop_last(), h);
        if s.last() >= h {
            r.push(s.last())
        } else {
            r
        }
    }
}

/// The position of hour `h` in `s` from `i` on, or 0 when it is absent.
pub open spec fn hour_position(s: Seq<u32>, h: int, i: int) -> int
    decreases s.len() - i,
{
    if i < 0 || i >= s.len() {
        0
    } else if s[i] == h {
        i
    } else {
        hour_position(s, h, i + 1)
    }
}

proof fn lemma_days_from(s: Seq<i32>, d: int)
    ensures
        forall|x: i32| #[trigger] days_from(s, d).contains(x) <==> s.contains(x) && x >= d,
    decreases s.len(),
{
    if s.len() > 0 {
        let t = s.drop_last();
        lemma_days_from(t, d);
        let r = days_from(t, d);
        let f = days_from(s, d);
        assert forall|x: i32| #[trigger] f.contains(x) <==> s.contains(x) && x >= d by {
            if f.contains(x) {
                let k = choose|k: int| 0 <= k < f.len() && f[k] == x;
                if k < r.len() {
                    assert(r[k] == x);
                    assert(r.contains(x));
                    let j = choose|j: int| 0 <= j < t.len() && t[j] == x;
                    assert(s[j] == x);
                } else {
                    assert(s[s.len() - 1] == x);
                }
                assert(s.contains(x));
            }
            if s.contains(x) && x >= d {
                let k = choose|k: int| 0 <= k < s.len() && s[k] == x;
                if k < s.len() - 1 {
                    assert(t[k] == x);
                    assert(t.contains(x));
                    assert(r.contains(x));
                    let j = choose|j: int| 0 <= j < r.len() && r[j] == x;
                    assert(f[j] == x);
                } else {
                    assert(f[r.len() as int] == x);
                }
            }
        }
    }
}

proof fn lemma_hours_from(s: Seq<u32>, h: int)
    ensures
        forall|x: u32| #[trigger] hours_from(s, h).contains(x) <==> s.contains(x) && x >= h,
    decreases s.len(),
{
    if s.len() > 0 {
        let t = s.drop_last();
        lemma_hours_from(t, h);
        let r = hours_from(t, h);
        let f = hours_from(s, h);
        assert forall|x: u32| #[trigger] f.contains(x) <==> s.contains(x) && x >= h by {
            if f.contains(x) {
                let k = choose|k: int| 0 <= k < f.len() && f[k] == x;
                if k < r.len() {
                    assert(r[k] == x);
                    assert(r.contains(x));
                    let j = choose|j: int| 0 <= j < t.len() && t[j] == x;
                    assert(s[j] == x);
                } else {
                    assert(s[s.len() - 1] == x);
                }
                assert(s.contains(x));
            }
            if s.contains(x) && x >= h {
                let k = choose|k: int| 0 <= k < s.len() && s[k] == x;
                if k < s.len() - 1 {
                    assert(t[k] == x);
                    assert(t.contains(x));
                    assert(r.contains(x));
                    let j = choose|j: int| 0 <= j < r.len() && r[j] == x;
                    assert(f[j] == x);
                } else {
                    assert(f[r.len() as int] == x);
                }
            }
        }
    }
}

/// Two increasing lists of hours with the same members are the same list.
proof fn lemma_sorted_hours_equal(a: Seq<u32>, b: Seq<u32>)
    requires
        hours_sorted(a),
        hours_sorted(b),
        forall|x: u32| #[trigger] a.contains(x) <==> b.contains(x),
    ensures
        a == b,
    decreases a.len() + b.len(),
{
    if a.len() == 0 {
        if b.len() > 0 {
            assert(b[0] == b[0]);
            assert(b.contains(b[0]));
            assert(a.contains(b[0]));
        }
        assert(a =~= b);
    } else {
        assert(a.contains(a[0]));
        assert(b.contains(a[0]));
        assert(b.len() > 0);
        assert(b.contains(b[0]));
        assert(a.contains(b[0]));
        let j = choose|j: int| 0 <= j < b.len() && b[j] == a[0];
        let k = choose|k: int| 0 <= k < a.len() && a[k] == b[0];
        assert(a[0] <= a[k]);
        assert(b[0] <= b[j]);
        assert(a[0] == b[0]);
        let a1 = a.drop_first();
        let b1 = b.drop_first();
        assert forall|x: u32| #[trigger] a1.contains(x) <==> b1.contains(x) by {
            if a1.contains(x) {
                let i = choose|i: int| 0 <= i < a1.len() && a1[i] == x;
                assert(a[i + 1] == x);
                assert(a.contains(x));
                assert(b.contains(x));
                let m = choose|m: int| 0 <= m < b.len() && b[m] == x;
                assert(m != 0);
                assert(b1[m - 1] == x);
            }
            if b1.contains(x) {
                let i = choose|i: int| 0 <= i < b1.len() && b1[i] == x;
                assert(b[i + 1] == x);
                assert(b.contains(x));
                assert(a.contains(x));
                let m = choose|m: int| 0 <= m < a.len() && a[m] == x;
                assert(m != 0);
                assert(a1[m - 1] == x);
            }
        }
        lemma_sorted_hours_equal(a1, b1);
        assert(a =~= seq![a[0]] + a1);
        assert(b =~= seq![b[0]] + b1);
    }
}

/// In an increasing list, the position of the hour at `i` is `i`.
proof fn lemma_hour_position(s: Seq<u32>, i: int, j: int)
    requires
        hours_sorted(s),
        0 <= j <= i < s.len(),
    ensures
        hour_position(s, s[i] as int, j) == i,
    decreases i - j,
{
    if j < i {
        lemma_hour_position(s, i, j + 1);
    }
}

fn keep_days_from(s: &Vec<i32>, d: i32) -> (r: Vec<i32>)
    ensures
        r@ == days_from(s@, d as int),
{
    let mut out: Vec<i32> = Vec::new();
    let mut i: usize = 0;
    while i < s.len()
        invariant
            i <= s@.len(),
            out@ == days_from(s@.take(i as int), d as int),
        decreases s@.len() - i,
    {
        assert(s@.take(i + 1).drop_last() =~= s@.take(i as int));
        if s[i] >= d {
            out.push(s[i]);
        }
        i += 1;
    }
    assert(s@.take(s@.len() as int) =~= s@);
    out
}

fn keep_hours_from(s: &Vec<u32>, h: u32) -> (r: Vec<u32>)
    ensures
        r@ == hours_from(s@, h as int),
{
    let mut out: Vec<u32> = Vec::new();
    let mut i: usize = 0;
    while i < s.len()
        invariant
            i <= s@.len(),
            out@ == hours_from(s@.take(i as int), h as int),
        decreases s@.len() - i,
    {
        assert(s@.take(i + 1).drop_last() =~= s@.take(i as int));
        if s[i] >= h {
            out.push(s[i]);
        }
        i += 1;
    }
    assert(s@.take(s@.len() as int) =~= s@);
    out
}

fn position_of_hour(s: &Vec<u32>, h: u32) -> (r: usize)
    ensures
        r == hour_position(s@, h as int, 0),
        s@.len() > 0 ==> r < s@.len(),
{
    let mut i: usize = 0;
    while i < s.len()
        invariant
            i <= s@.len(),
            hour_position(s@, h as int, 0) == hour_position(s@, h as int, i as int),
        decreases s@.len() - i,
    {
        if s[i] == h {
            return i;
        }
        i += 1;
    }
    0
}

/// A command read from a typed time range.
#[derive(Clone, Copy, Debug, PartialEq, Eq, Structural)]
pub enum TimeCommand {
    /// `clear`, or nothing typed: both bounds removed.
    Clear,
    /// A word of the relative vocabulary.
    Relative(Option<Timestamp>, Option<Timestamp>),
    /// `after <t>` or `from <t>`: a start only.
    After(Timestamp),
    /// `<t> to <t>`.
    Between(Timestamp, Timestamp),
    /// `before <t>`: an end only.
    Before(Timestamp),
    /// `<t>..<t>`.
    Span(Timestamp, Timestamp),
    /// A bare `<t>`: a start only.
    From(Timestamp),
    /// Nothing above fits.
    Invalid,
}

/// The rest of a text after `after ` or, failing that, `from `, either in any ASCII case.
pub open spec fn after_rest(s: Seq<char>) -> Option<Seq<char>> {
    match strip_prefix_nocase(s, "after "@) {
        Some(r) => Some(r),
        None => strip_prefix_nocase(s, "from "@),
    }
}

/// How a typed range reads at instant `now`, trying in order: `clear` or
/// blank, the relative vocabulary, `after`/`from <t>`, `<t> to <t>`,
/// `before <t>`, `<t>..<t>`, and a bare `<t>`. Keywords match in any ASCII
/// case; each `<t>` is read by the absolute parser as typed.
pub open spec fn time_command(raw: Seq<char>, now: Timestamp) -> TimeCommand {
    let s = trim(raw);
    let lower = lower_of(s);
    let rel = relative_range(lower_of(trim(lower)), now);
    let after = after_rest(s);
    let to = split_once_nocase(s, " to "@);
    let before = strip_prefix_nocase(s, "before "@);
    let dots = split_once(s, ".."@);
    let (rel_start, rel_end) = match rel {
        Some(r) => r,
        None => (None, None),
    };
    let (to_a, to_b) = match to {
        Some(p) => (parsed_time(p.0), parsed_time(trim(p.1))),
        None => (None, None),
    };
    let (dots_a, dots_b) = match dots {
        Some(p) => (parsed_time(p.0), parsed_time(trim(p.1))),
        None => (None, None),
    };
    if lower == "clear"@ || s.len() == 0 {
        TimeCommand::Clear
    } else if rel is Some {
        TimeCommand::Relative(rel_start, rel_end)
    } else if after is Some && parsed_time(after->0) is Some {
        TimeCommand::After(parsed_time(after->0)->0)
    } else if to_a is Some && to_b is Some {
        TimeCommand::Between(to_a->0, to_b->0)
    } else if before is Some && parsed_time(before->0) is Some {
        TimeCommand::Before(parsed_time(before->0)->0)
    } else if dots_a is Some && dots_b is Some {
        TimeCommand::Span(dots_a->0, dots_b->0)
    } else if parsed_time(s) is Some {
        TimeCommand::From(parsed_time(s)->0)
    } else {
        TimeCommand::Invalid
    }
}

/// Every instant a command carries is a value chrono holds.
pub open spec fn command_wf(c: TimeCommand) -> bool {
    match c {
        TimeCommand::Relative(a, b) => (a matches Some(x) ==> x.wf()) && (b matches Some(y) ==> y.wf()),
        TimeCommand::After(t) => t.wf(),
        TimeCommand::Between(a, b) => a.wf() && b.wf(),
        TimeCommand::Before(t) => t.wf(),
        TimeCommand::Span(a, b) => a.wf() && b.wf(),
        TimeCommand::From(t) => t.wf(),
        _ => true,
    }
}

/// Reads a typed time range at instant `now`.
pub fn parse_time_command(raw: &str, now: Timestamp) -> (r: TimeCommand)
    requires
        now.wf(),
    ensures
        r == time_command(raw@, now),
        command_wf(r),
{
    let s = trim_str(raw, Trim::Space);
    let lowered = lowercase(s);
    let lower = lowered.as_str();
    if same_text(lower, "clear") || s.unicode_len() == 0 {
        return TimeCommand::Clear;
    }
    if let Some((a, b)) = parse_relative_range(lower, now) {
        return TimeCommand::Relative(a, b);
    }
    let after = match strip_prefix_nocase_str(s, "after ") {
        Some(r) => Some(r),
        None => strip_prefix_nocase_str(s, "from "),
    };
    if let Some(rest) = after {
        if let Some(t) = parse_time(rest) {
            return TimeCommand::After(t);
        }
    }
    if let Some((a, b)) = split_once_nocase_str(s, " to ") {
        let ta = parse_time(a);
        let tb = parse_time(trim_str(b, Trim::Space));
        if let (Some(x), Some(y)) = (ta, tb) {
            return TimeCommand::Between(x, y);
        }
    }
    if let Some(rest) = strip_prefix_nocase_str(s, "before ") {
        if let Some(t) = parse_time(rest) {
            return TimeCommand::Before(t);
        }
    }
    if let Some((a, b)) = split_once_str(s, "..") {
        let ta = parse_time(a);
        let tb = parse_time(trim_str(b, Trim::Space));
        if let (Some(x), Some(y)) = (ta, tb) {
            return TimeCommand::Span(x, y);
        }
    }
    if let Some(t) = parse_time(s) {
        return TimeCommand::From(t);
    }
    TimeCommand::Invalid
}

/// The bounds a command sets.
pub open spec fn command_range(c: TimeCommand) -> (Option<Timestamp>, Option<Timestamp>) {
    match c {
        TimeCommand::Relative(a, b) => (a, b),
        TimeCommand::After(t) => (Some(t), None),
        TimeCommand::Between(a, b) => (Some(a), Some(b)),
        TimeCommand::Before(t) => (None, Some(t)),
        TimeCommand::Span(a, b) => (Some(a), Some(b)),
        TimeCommand::From(t) => (Some(t), None),
        _ => (None, None),
    }
}

/// The notice for a command applied with `n` events listed.
pub open spec fn command_notice(c: TimeCommand, n: usize) -> Notice {
    match c {
        TimeCommand::Clear => Notice::TimeCleared,
        TimeCommand::Relative(a, b) => range_notice(a, b, n),
        TimeCommand::After(t) => Notice::After(t, n),
        TimeCommand::Between(a, b) => Notice::Range(a, b, n),
        TimeCommand::Before(t) => Notice::Before(t, n),
        TimeCommand::Span(a, b) => Notice::Range(a, b, n),
        TimeCommand::From(t) => Notice::From(t, n),
        TimeCommand::Invalid => Notice::InvalidTime,
    }
}

/// Stepping back from the end-hour step to the preset list rebuilds each
/// step as it was when the range was being built forward: the end dates as
/// offered on entering that step, the start hours with the chosen start hour
/// selected again, the start dates with the first selected, then the preset
/// list with the first preset selected; the active range never changes.
pub proof fn lemma_backward_restores(
    now: Timestamp,
    a1: App,
    a2: App,
    a3: App,
    a3s: App,
    a4: App,
    a4s: App,
    a5: App,
    b4: App,
    b3: App,
    b2: App,
    b1: App,
)
    requires
        a1.wf(),
        a1.time_filter_sub == TimeFilterSub::Picker,
        a1.time_picker_selected == Some(PICK_DATES),
        a1.unique_dates@.len() > 1,
        a1.preset_chosen(a2, now),
        a2.start_date_chosen(a3),
        a3.time_filter_sub is CustomRangeStartHour,
        a3s.same_outside_picker(a3),
        a3s.time_filter_sub == a3.time_filter_sub,
        a3s.time_picker_selected == a3.time_picker_selected,
        a3s.date_picker_end_dates == a3.date_picker_end_dates,
        a3s.date_picker_hours == a3.date_picker_hours,
        a3s.start_hour_chosen(a4),
        a4.time_filter_sub is CustomRangeEnd,
        a4s.same_outside_picker(a4),
        a4s.time_filter_sub == a4.time_filter_sub,
        a4s.time_picker_selected == a4.time_picker_selected,
        a4s.date_picker_end_dates == a4.date_picker_end_dates,
        a4s.date_picker_hours == a4.date_picker_hours,
        a4s.end_date_chosen(a5),
        a5.time_filter_sub is CustomRangeEndHour,
        a5.picker_cancelled(b4),
        b4.picker_cancelled(b3),
        b3.picker_cancelled(b2),
        b2.picker_cancelled(b1),
    ensures
        b4.time_filter_sub == a4.time_filter_sub,
        b4.date_picker_end_dates@ == a4.date_picker_end_dates@,
        b4.date_picker_selected == a4.date_picker_selected,
        b3.time_filter_sub == a3.time_filter_sub,
        b3.date_picker_hours@ == a3.date_picker_hours@,
        b3.date_picker_selected == a3s.date_picker_selected,
        b2.time_filter_sub == a2.time_filter_sub,
        b2.date_picker_selected == a2.date_picker_selected,
        b1.time_filter_sub == TimeFilterSub::Picker,
        b1.time_picker_selected == Some(0usize),
        b1.time_range_start == a1.time_range_start,
        b1.time_range_end == a1.time_range_end,
{
    let d = a3.time_filter_sub->CustomRangeStartHour_0;
    let i = a3s.date_picker_selected->0;
    let h = a3s.date_picker_hours@[i as int];
    assert((h * 3600) / 3600 == h) by (nonlinear_arith);
    let start = Timestamp { day: d, secs: (h * 3600) as u32, nanos: 0 };
    assert(a4.time_filter_sub == TimeFilterSub::CustomRangeEnd(start));
    assert(b3.time_filter_sub == TimeFilterSub::CustomRangeStartHour(d));
    let j = a2.date_picker_selected->0;
    assert(is_hour_list(a1.events@, d as int, a3.date_picker_hours@));
    assert(is_hour_list(a1.events@, d as int, b3.date_picker_hours@));
    assert forall|x: u32| #[trigger] a3.date_picker_hours@.contains(x) <==> b3.date_picker_hours@.contains(x) by {
        if a3.date_picker_hours@.contains(x) {
            let k = choose|k: int| 0 <= k < a3.date_picker_hours@.len() && a3.date_picker_hours@[k] == x;
            assert(crate::filters::has_hour(a1.events@, a1.events@.len() as int, d as int, x as int));
        }
        if b3.date_picker_hours@.contains(x) {
            let k = choose|k: int| 0 <= k < b3.date_picker_hours@.len() && b3.date_picker_hours@[k] == x;
            assert(crate::filters::has_hour(a1.events@, a1.events@.len() as int, d as int, x as int));
        }
    }
    lemma_sorted_hours_equal(a3.date_picker_hours@, b3.date_picker_hours@);
    lemma_hour_position(b3.date_picker_hours@, i as int, 0);
}

impl App {
    /// The length of the candidate list of the current picker step.
    pub open spec fn picker_list_len(self) -> int {
        match self.time_filter_sub {
            TimeFilterSub::CustomRangeStart => self.unique_dates@.len() as int,
            TimeFilterSub::CustomRangeStartHour(_) => self.date_picker_hours@.len() as int,
            TimeFilterSub::CustomRangeEnd(_) => self.date_picker_end_dates@.len() as int,
            TimeFilterSub::CustomRangeEndHour(_, _) => self.date_picker_hours@.len() as int,
            _ => 0,
        }
    }

    /// `p` holds the range `[start, end]`, lists what it lets through, is back
    /// in normal mode at the preset list, and nothing else outside the picker
    /// changed but the notice and the typed text.
    pub open spec fn range_applied(self, p: App, start: Option<Timestamp>, end: Option<Timestamp>) -> bool {
        &&& p.time_range_start == start
        &&& p.time_range_end == end
        &&& p.refreshed()
        &&& p.mode == Mode::Normal
        &&& p.time_filter_sub == TimeFilterSub::Picker
        &&& p.same_data(self)
        &&& p.action_type_filter == self.action_type_filter
        &&& p.search == self.search
        &&& p.search_input == self.search_input
        &&& p.time_picker_selected == self.time_picker_selected
        &&& p.date_picker_end_dates == self.date_picker_end_dates
        &&& p.date_picker_hours == self.date_picker_hours
        &&& p.date_picker_selected == self.date_picker_selected
        &&& p.error == self.error
        &&& p.should_quit == self.should_quit
        &&& p.action_type_selected == self.action_type_selected
    }

    /// Entering the date chain from the preset list: no dates gives a notice
    /// and no change; a single date goes straight to its hours; otherwise the
    /// start-date list, first date selected.
    pub open spec fn dates_entered(self, p: App) -> bool {
        if self.unique_dates@.len() == 0 {
            &&& p.flash == Some(Notice::NoDates)
            &&& p.same_data(self)
            &&& p.same_filters(self)
            &&& p.same_list(self)
            &&& p.search_input == self.search_input
            &&& p.time_input == self.time_input
            &&& p.same_picker(self)
            &&& p.mode == self.mode
            &&& p.error == self.error
            &&& p.should_quit == self.should_quit
            &&& p.action_type_selected == self.action_type_selected
        } else {
            &&& p.same_outside_picker(self)
            &&& p.time_picker_selected == self.time_picker_selected
            &&& p.date_picker_end_dates == self.date_picker_end_dates
            &&& if self.unique_dates@.len() == 1 {
                &&& p.time_filter_sub == TimeFilterSub::CustomRangeStartHour(self.unique_dates@[0])
                &&& is_hour_list(self.events@, self.unique_dates@[0] as int, p.date_picker_hours@)
                &&& p.date_picker_selected == first_of(p.date_picker_hours@.len() as int)
            } else {
                &&& p.time_filter_sub == TimeFilterSub::CustomRangeStart
                &&& p.date_picker_hours == self.date_picker_hours
                &&& p.date_picker_selected == Some(0usize)
            }
        }
    }

    /// Entering the typed-range step: the active range, written out, is
    /// appended to the text.
    pub open spec fn typed_range_entered(self, p: App) -> bool {
        &&& p.time_filter_sub == TimeFilterSub::Custom
        &&& p.time_input@ == self.time_input@ + range_text(self.time_range_start, self.time_range_end)
        &&& p.same_data(self)
        &&& p.same_filters(self)
        &&& p.same_list(self)
        &&& p.search_input == self.search_input
        &&& p.same_status(self)
        &&& p.time_picker_selected == self.time_picker_selected
        &&& p.date_picker_end_dates == self.date_picker_end_dates
        &&& p.date_picker_hours == self.date_picker_hours
        &&& p.date_picker_selected == self.date_picker_selected
    }

    /// What choosing the selected preset at instant `now` does.
    pub open spec fn preset_chosen(self, p: App, now: Timestamp) -> bool {
        match self.time_picker_selected {
            Some(i) => if i == PICK_DATES {
                self.dates_entered(p)
            } else if i == TYPE_RANGE {
                self.typed_range_entered(p)
            } else if i < PICK_DATES {
                match relative_range(preset_keyword(i as int), now) {
                    Some(r) => {
                        &&& self.range_applied(p, r.0, r.1)
                        &&& p.time_input == self.time_input
                        &&& p.flash == Some(range_notice(r.0, r.1, p.filtered_indices@.len() as usize))
                    },
                    None => p == self,
                }
            } else {
                p == self
            },
            None => p == self,
        }
    }

    /// Choosing the selected start date: its hours become the candidates.
    pub open spec fn start_date_chosen(self, p: App) -> bool {
        match self.date_picker_selected {
            Some(i) => if i < self.unique_dates@.len() {
                let d = self.unique_dates@[i as int];
                &&& p.time_filter_sub == TimeFilterSub::CustomRangeStartHour(d)
                &&& is_hour_list(self.events@, d as int, p.date_picker_hours@)
                &&& p.date_picker_selected == first_of(p.date_picker_hours@.len() as int)
                &&& p.same_outside_picker(self)
                &&& p.time_picker_selected == self.time_picker_selected
                &&& p.date_picker_end_dates == self.date_picker_end_dates
            } else {
                p == self
            },
            None => p == self,
        }
    }

    /// Choosing the selected start hour fixes the start; with a single date in
    /// the data the end hours follow at once (those from the start hour on),
    /// otherwise the end dates on or after the start date.
    pub open spec fn start_hour_chosen(self, p: App) -> bool {
        match self.time_filter_sub {
            TimeFilterSub::CustomRangeStartHour(d) => match self.date_picker_selected {
                Some(i) => if i < self.date_picker_hours@.len() {
                    let h = self.date_picker_hours@[i as int];
                    let start = Timestamp { day: d, secs: (h * 3600) as u32, nanos: 0 };
                    &&& p.same_outside_picker(self)
                    &&& p.time_picker_selected == self.time_picker_selected
                    &&& if self.unique_dates@.len() == 1 && self.unique_dates@[0] == d {
                        &&& p.time_filter_sub == TimeFilterSub::CustomRangeEndHour(start, d)
                        &&& p.date_picker_hours@ == hours_from(self.date_picker_hours@, h as int)
                        &&& p.date_picker_selected == first_of(p.date_picker_hours@.len() as int)
                        &&& p.date_picker_end_dates == self.date_picker_end_dates
                    } else {
                        &&& p.time_filter_sub == TimeFilterSub::CustomRangeEnd(start)
                        &&& p.date_picker_end_dates@ == days_from(self.unique_dates@, d as int)
                        &&& p.date_picker_selected == first_of(p.date_picker_end_dates@.len() as int)
                        &&& p.date_picker_hours == self.date_picker_hours
                    }
                } else {
                    p == self
                },
                None => p == self,
            },
            _ => p == self,
        }
    }

    /// Choosing the selected end date: its hours become the candidates, only
    /// those from the start hour on when it is the start date.
    pub open spec fn end_date_chosen(self, p: App) -> bool {
        match self.time_filter_sub {
            TimeFilterSub::CustomRangeEnd(start) => match self.date_picker_selected {
                Some(i) => if i < self.date_picker_end_dates@.len() {
                    let e = self.date_picker_end_dates@[i as int];
                    &&& p.time_filter_sub == TimeFilterSub::CustomRangeEndHour(start, e)
                    &&& (if e == start.day {
                        exists|all: Seq<u32>|
                            is_hour_list(self.events@, e as int, all) && p.date_picker_hours@
                                == #[trigger] hours_from(all, start.hour_of())
                    } else {
                        is_hour_list(self.events@, e as int, p.date_picker_hours@)
                    })
                    &&& p.date_picker_selected == first_of(p.date_picker_hours@.len() as int)
                    &&& p.same_outside_picker(self)
                    &&& p.time_picker_selected == self.time_picker_selected
                    &&& p.date_picker_end_dates == self.date_picker_end_dates
                } else {
                    p == self
                },
                None => p == self,
            },
            _ => p == self,
        }
    }

    /// Choosing the selected end hour applies `[start, end date at hh:59:59]`.
    pub open spec fn end_hour_chosen(self, p: App) -> bool {
        match self.time_filter_sub {
            TimeFilterSub::CustomRangeEndHour(start, e) => match self.date_picker_selected {
                Some(i) => if i < self.date_picker_hours@.len() {
                    let h = self.date_picker_hours@[i as int];
                    let end = Timestamp { day: e, secs: (h * 3600 + 3599) as u32, nanos: 0 };
                    &&& self.range_applied(p, Some(start), Some(end))
                    &&& p.time_input == self.time_input
                    &&& p.flash == Some(Notice::Range(start, end, p.filtered_indices@.len() as usize))
                } else {
                    p == self
                },
                None => p == self,
            },
            _ => p == self,
        }
    }

    /// Committing the typed range at instant `now`: a readable range is
    /// applied and the text emptied; otherwise the text stays for correction
    /// and a guidance notice is shown.
    pub open spec fn typed_range_committed(self, p: App, now: Timestamp) -> bool {
        let c = time_command(self.time_input@, now);
        if c == TimeCommand::Invalid {
            &&& p.flash == Some(Notice::InvalidTime)
            &&& p.time_input == self.time_input
            &&& p.same_data(self)
            &&& p.same_filters(self)
            &&& p.same_list(self)
            &&& p.search_input == self.search_input
            &&& p.same_picker(self)
            &&& p.mode == self.mode
            &&& p.error == self.error
            &&& p.should_quit == self.should_quit
            &&& p.action_type_selected == self.action_type_selected
        } else {
            &&& self.range_applied(p, command_range(c).0, command_range(c).1)
            &&& p.time_input@.len() == 0
            &&& p.flash == Some(command_notice(c, p.filtered_indices@.len() as usize))
        }
    }

    /// Stepping back one picker step, rebuilding that step's candidates from
    /// the data; from the preset list, leaving the time filter with the range
    /// unchanged.
    pub open spec fn picker_cancelled(self, p: App) -> bool {
        match self.time_filter_sub {
            TimeFilterSub::Custom => {
                &&& p.time_filter_sub == TimeFilterSub::Picker
                &&& p.time_input@.len() == 0
                &&& p.time_picker_selected == Some(0usize)
                &&& p.same_data(self)
                &&& p.same_filters(self)
                &&& p.same_list(self)
                &&& p.search_input == self.search_input
                &&& p.same_status(self)
                &&& p.date_picker_end_dates == self.date_picker_end_dates
                &&& p.date_picker_hours == self.date_picker_hours
                &&& p.date_picker_selected == self.date_picker_selected
            },
            TimeFilterSub::CustomRangeEndHour(start, _) => {
                &&& p.time_filter_sub == TimeFilterSub::CustomRangeEnd(start)
                &&& p.date_picker_end_dates@ == days_from(self.unique_dates@, start.day as int)
                &&& p.date_picker_selected == first_of(p.date_picker_end_dates@.len() as int)
                &&& p.same_outside_picker(self)
                &&& p.time_picker_selected == self.time_picker_selected
                &&& p.date_picker_hours == self.date_picker_hours
            },
            TimeFilterSub::CustomRangeEnd(start) => {
                &&& p.time_filter_sub == TimeFilterSub::CustomRangeStartHour(start.day)
                &&& is_hour_list(self.events@, start.day as int, p.date_picker_hours@)
                &&& p.date_picker_selected == (if p.date_picker_hours@.len() == 0 {
                    None
                } else {
                    Some(hour_position(p.date_picker_hours@, start.hour_of(), 0) as usize)
                })
                &&& p.same_outside_picker(self)
                &&& p.time_picker_selected == self.time_picker_selected
                &&& p.date_picker_end_dates == self.date_picker_end_dates
            },
            TimeFilterSub::CustomRangeStartHour(_) => {
                &&& p.time_filter_sub == TimeFilterSub::CustomRangeStart
                &&& p.date_picker_hours@.len() == 0
                &&& p.date_picker_selected == Some(0usize)
                &&& p.same_outside_picker(self)
                &&& p.time_picker_selected == self.time_picker_selected
                &&& p.date_picker_end_dates == self.date_picker_end_dates
            },
            TimeFilterSub::CustomRangeStart => {
                &&& p.time_filter_sub == TimeFilterSub::Picker
                &&& p.time_picker_selected == Some(0usize)
                &&& p.same_outside_picker(self)
                &&& p.date_picker_end_dates == self.date_picker_end_dates
                &&& p.date_picker_hours == self.date_picker_hours
                &&& p.date_picker_selected == self.date_picker_selected
            },
            TimeFilterSub::Picker => {
                &&& p.time_input@.len() == 0
                &&& p.mode == Mode::Normal
                &&& p.same_data(self)
                &&& p.same_filters(self)
                &&& p.same_list(self)
                &&& p.search_input == self.search_input
                &&& p.same_picker(self)
                &&& p.flash == self.flash
                &&& p.error == self.error
                &&& p.should_quit == self.should_quit
                &&& p.action_type_selected == self.action_type_selected
            },
        }
    }

    /// Enters the time filter at the preset list, first preset selected.
    pub fn start_time_filter(&mut self)
        requires
            old(self).wf(),
        ensures
            final(self).wf(),
            final(self).mode == Mode::TimeFilter,
            final(self).time_filter_sub == TimeFilterSub::Picker,
            final(self).time_input@.len() == 0,
            final(self).time_picker_selected == Some(0usize),
            final(self).same_data(*old(self)),
            final(self).same_filters(*old(self)),
            final(self).same_list(*old(self)),
            final(self).search_input == old(self).search_input,
            final(self).date_picker_end_dates == old(self).date_picker_end_dates,
            final(self).date_picker_hours == old(self).date_picker_hours,
            final(self).date_picker_selected == old(self).date_picker_selected,
            final(self).flash == old(self).flash,
            final(self).error == old(self).error,
            final(self).should_quit == old(self).should_quit,
            final(self).action_type_selected == old(self).action_type_selected,
    {
        self.mode = Mode::TimeFilter;
        self.time_filter_sub = TimeFilterSub::Picker;
        self.time_input = String::new();
        self.time_picker_selected = Some(0);
    }

    /// Chooses the selected preset, resolving relative presets against the
    /// local clock.
    pub fn apply_time_picker_selection(&mut self)
        requires
            old(self).wf(),
        ensures
            final(self).wf(),
            exists|now: Timestamp| now.wf() && #[trigger] old(self).preset_chosen(*final(self), now),
    {
        let now = now_for_relative();
        self.apply_time_picker_selection_at(now);
    }

    /// Chooses the selected preset, resolving relative presets against `now`.
    pub fn apply_time_picker_selection_at(&mut self, now: Timestamp)
        requires
            old(self).wf(),
            now.wf(),
        ensures
            final(self).wf(),
            old(self).preset_chosen(*final(self), now),
    {
        let idx = match self.time_picker_selected {
            Some(i) => i,
            None => return,
        };
        if idx == PICK_DATES {
            self.enter_dates();
        } else if idx == TYPE_RANGE {
            self.enter_typed_range();
        } else if idx < PICK_DATES {
            let word = preset_keyword_str(idx);
            if let Some((start, end)) = relative_range_for(word, now) {
                self.time_range_start = start;
                self.time_range_end = end;
                self.apply_filters();
                self.mode = Mode::Normal;
                self.time_filter_sub = TimeFilterSub::Picker;
                let n = self.filtered_indices.len();
                self.flash = Some(range_notice_of(start, end, n));
            }
        }
    }

    fn enter_dates(&mut self)
        requires
            old(self).wf(),
        ensures
            final(self).wf(),
            old(self).dates_entered(*final(self)),
    {
        if self.unique_dates.len() == 0 {
            self.flash = Some(Notice::NoDates);
            return;
        }
        if self.unique_dates.len() == 1 {
            let d = self.unique_dates[0];
            self.time_filter_sub = TimeFilterSub::CustomRangeStartHour(d);
            self.date_picker_hours = unique_hours_for_date(self.events.as_slice(), d);
            self.date_picker_selected = if self.date_picker_hours.len() == 0 {
                None
            } else {
                Some(0)
            };
        } else {
            self.time_filter_sub = TimeFilterSub::CustomRangeStart;
            self.date_picker_selected = Some(0);
        }
    }

    fn enter_typed_range(&mut self)
        requires
            old(self).wf(),
        ensures
            final(self).wf(),
            old(self).typed_range_entered(*final(self)),
    {
        let ghost before = self.time_input@;
        self.time_filter_sub = TimeFilterSub::Custom;
        if let Some(s) = self.time_range_start {
            let text = format_minutes(s);
            self.time_input.append(text.as_str());
        }
        if self.time_range_end.is_some() {
            self.time_input.append(" to ");
        }
        if let Some(e) = self.time_range_end {
            let text = format_minutes(e);
            self.time_input.append(text.as_str());
        }
        assert(self.time_input@ =~= before + range_text(self.time_range_start, self.time_range_end));
    }

    /// Moves the preset selection one down, stopping at the last.
    pub fn time_picker_next(&mut self)
        requires
            old(self).wf(),
        ensures
            final(self).wf(),
            final(self).time_picker_selected == step_down(old(self).time_picker_selected, TIME_PRESET_COUNT as int),
            final(self).same_outside_picker(*old(self)),
            final(self).time_filter_sub == old(self).time_filter_sub,
            final(self).date_picker_end_dates == old(self).date_picker_end_dates,
            final(self).date_picker_hours == old(self).date_picker_hours,
            final(self).date_picker_selected == old(self).date_picker_selected,
    {
        self.time_picker_selected = select_next(self.time_picker_selected, TIME_PRESET_COUNT);
    }

    /// Moves the preset selection one up, stopping at the first.
    pub fn time_picker_previous(&mut self)
        requires
            old(self).wf(),
        ensures
            final(self).wf(),
            final(self).time_picker_selected == step_up(old(self).time_picker_selected, TIME_PRESET_COUNT as int),
            final(self).same_outside_picker(*old(self)),
            final(self).time_filter_sub == old(self).time_filter_sub,
            final(self).date_picker_end_dates == old(self).date_picker_end_dates,
            final(self).date_picker_hours == old(self).date_picker_hours,
            final(self).date_picker_selected == old(self).date_picker_selected,
    {
        self.time_picker_selected = select_previous(self.time_picker_selected, TIME_PRESET_COUNT);
    }

    fn date_picker_list_len(&self) -> (r: usize)
        ensures
            r == self.picker_list_len(),
    {
        match self.time_filter_sub {
            TimeFilterSub::CustomRangeStart => self.unique_dates.len(),
            TimeFilterSub::CustomRangeStartHour(_) => self.date_picker_hours.len(),
            TimeFilterSub::CustomRangeEnd(_) => self.date_picker_end_dates.len(),
            TimeFilterSub::CustomRangeEndHour(_, _) => self.date_picker_hours.len(),
            _ => 0,
        }
    }

    /// Moves the date or hour selection one down, stopping at the last; no
    /// change when the step has no candidates.
    pub fn date_picker_next(&mut self)
        requires
            old(self).wf(),
        ensures
            final(self).wf(),
            final(self).date_picker_selected == (if old(self).picker_list_len() == 0 {
                old(self).date_picker_selected
            } else {
                step_down(old(self).date_picker_selected, old(self).picker_list_len())
            }),
            final(self).same_outside_picker(*old(self)),
            final(self).time_filter_sub == old(self).time_filter_sub,
            final(self).time_picker_selected == old(self).time_picker_selected,
            final(self).date_picker_end_dates == old(self).date_picker_end_dates,
            final(self).date_picker_hours == old(self).date_picker_hours,
    {
        let len = self.date_picker_list_len();
        if len == 0 {
            return;
        }
        self.date_picker_selected = select_next(self.date_picker_selected, len);
    }

    /// Moves the date or hour selection one up, stopping at the first; no
    /// change when the step has no candidates.
    pub fn date_picker_previous(&mut self)
        requires
            old(self).wf(),
        ensures
            final(self).wf(),
            final(self).date_picker_selected == (if old(self).picker_list_len() == 0 {
                old(self).date_picker_selected
            } else {
                step_up(old(self).date_picker_selected, old(self).picker_list_len())
            }),
            final(self).same_outside_picker(*old(self)),
            final(self).time_filter_sub == old(self).time_filter_sub,
            final(self).time_picker_selected == old(self).time_picker_selected,
            final(self).date_picker_end_dates == old(self).date_picker_end_dates,
            final(self).date_picker_hours == old(self).date_picker_hours,
    {
        let len = self.date_picker_list_len();
        if len == 0 {
            return;
        }
        self.date_picker_selected = select_previous(self.date_picker_selected, len);
    }

    /// Fixes the selected start date and offers its hours.
    pub fn apply_date_range_start(&mut self)
        requires
            old(self).wf(),
        ensures
            final(self).wf(),
            old(self).start_date_chosen(*final(self)),
    {
        let idx = match self.date_picker_selected {
            Some(i) => i,
            None => return,
        };
        if idx >= self.unique_dates.len() {
            return;
        }
        let d = self.unique_dates[idx];
        self.time_filter_sub = TimeFilterSub::CustomRangeStartHour(d);
        self.date_picker_hours = unique_hours_for_date(self.events.as_slice(), d);
        self.date_picker_selected = if self.date_picker_hours.len() == 0 {
            None
        } else {
            Some(0)
        };
    }

    /// Fixes the start at the selected hour and moves on to the end.
    pub fn apply_date_range_start_hour(&mut self)
        requires
            old(self).wf(),
        ensures
            final(self).wf(),
            old(self).start_hour_chosen(*final(self)),
    {
        let d = match self.time_filter_sub {
            TimeFilterSub::CustomRangeStartHour(d) => d,
            _ => return,
        };
        let idx = match self.date_picker_selected {
            Some(i) => i,
            None => return,
        };
        if idx >= self.date_picker_hours.len() {
            return;
        }
        let h = self.date_picker_hours[idx];
        let start = Timestamp::at(d, h, 0, 0);
        if self.unique_dates.len() == 1 && self.unique_dates[0] == d {
            let hours = keep_hours_from(&self.date_picker_hours, h);
            proof {
                lemma_hours_from(self.date_picker_hours@, h as int);
                assert forall|k: int| 0 <= k < hours@.len() implies #[trigger] hours@[k] < 24 by {
                    assert(hours@.contains(hours@[k]));
                    assert(self.date_picker_hours@.contains(hours@[k]));
                }
            }
            self.date_picker_hours = hours;
            self.time_filter_sub = TimeFilterSub::CustomRangeEndHour(start, d);
            self.date_picker_selected = if self.date_picker_hours.len() == 0 {
                None
            } else {
                Some(0)
            };
        } else {
            let ends = keep_days_from(&self.unique_dates, d);
            proof {
                lemma_days_from(self.unique_dates@, d as int);
                assert forall|k: int| 0 <= k < ends@.len() implies day_in_range(#[trigger] ends@[k] as int) by {
                    assert(ends@.contains(ends@[k]));
                    assert(self.unique_dates@.contains(ends@[k]));
                }
            }
            self.date_picker_end_dates = ends;
            self.time_filter_sub = TimeFilterSub::CustomRangeEnd(start);
            self.date_picker_selected = if self.date_picker_end_dates.len() == 0 {
                None
            } else {
                Some(0)
            };
        }
    }

    /// Fixes the selected end date and offers its hours.
    pub fn apply_date_range_end(&mut self)
        requires
            old(self).wf(),
        ensures
            final(self).wf(),
            old(self).end_date_chosen(*final(self)),
    {
        let start = match self.time_filter_sub {
            TimeFilterSub::CustomRangeEnd(t) => t,
            _ => return,
        };
        let idx = match self.date_picker_selected {
            Some(i) => i,
            None => return,
        };
        if idx >= self.date_picker_end_dates.len() {
            return;
        }
        let e = self.date_picker_end_dates[idx];
        let all = unique_hours_for_date(self.events.as_slice(), e);
        if e == start.day {
            let hours = keep_hours_from(&all, start.hour());
            proof {
                lemma_hours_from(all@, start.hour_of());
                assert forall|k: int| 0 <= k < hours@.len() implies #[trigger] hours@[k] < 24 by {
                    assert(hours@.contains(hours@[k]));
                    assert(all@.contains(hours@[k]));
                }
                assert(is_hour_list(self.events@, e as int, all@) && hours@ == hours_from(all@, start.hour_of()));
            }
            self.date_picker_hours = hours;
        } else {
            self.date_picker_hours = all;
        }
        self.time_filter_sub = TimeFilterSub::CustomRangeEndHour(start, e);
        self.date_picker_selected = if self.date_picker_hours.len() == 0 {
            None
        } else {
            Some(0)
        };
    }

    /// Applies the range from the fixed start to the selected end hour's last second.
    pub fn apply_date_range_end_hour(&mut self)
        requires
            old(self).wf(),
        ensures
            final(self).wf(),
            old(self).end_hour_chosen(*final(self)),
    {
        let (start, e) = match self.time_filter_sub {
            TimeFilterSub::CustomRangeEndHour(t, d) => (t, d),
            _ => return,
        };
        let idx = match self.date_picker_selected {
            Some(i) => i,
            None => return,
        };
        if idx >= self.date_picker_hours.len() {
            return;
        }
        let h = self.date_picker_hours[idx];
        let end = Timestamp::at(e, h, 59, 59);
        self.time_range_start = Some(start);
        self.time_range_end = Some(end);
        self.apply_filters();
        self.mode = Mode::Normal;
        self.time_filter_sub = TimeFilterSub::Picker;
        let n = self.filtered_indices.len();
        self.flash = Some(Notice::Range(start, end, n));
    }

    /// Reads the typed range, resolving relative words against the local clock.
    pub fn commit_time_filter(&mut self)
        requires
            old(self).wf(),
        ensures
            final(self).wf(),
            exists|now: Timestamp| now.wf() && #[trigger] old(self).typed_range_committed(*final(self), now),
    {
        let now = now_for_relative();
        self.commit_time_filter_at(now);
    }

    /// Reads the typed range, resolving relative words against `now`.
    pub fn commit_time_filter_at(&mut self, now: Timestamp)
        requires
            old(self).wf(),
            now.wf(),
        ensures
            final(self).wf(),
            old(self).typed_range_committed(*final(self), now),
    {
        let command = parse_time_command(self.time_input.as_str(), now);
        if command == TimeCommand::Invalid {
            self.flash = Some(Notice::InvalidTime);
            return;
        }
        let (start, end) = match command {
            TimeCommand::Relative(a, b) => (a, b),
            TimeCommand::After(t) => (Some(t), None),
            TimeCommand::Between(a, b) => (Some(a), Some(b)),
            TimeCommand::Before(t) => (None, Some(t)),
            TimeCommand::Span(a, b) => (Some(a), Some(b)),
            TimeCommand::From(t) => (Some(t), None),
            _ => (None, None),
        };
        self.time_input = String::new();
        self.time_range_start = start;
        self.time_range_end = end;
        self.apply_filters();
        self.mode = Mode::Normal;
        self.time_filter_sub = TimeFilterSub::Picker;
        let n = self.filtered_indices.len();
        let notice = match command {
            TimeCommand::Clear => Notice::TimeCleared,
            TimeCommand::Relative(a, b) => range_notice_of(a, b, n),
            TimeCommand::After(t) => Notice::After(t, n),
            TimeCommand::Between(a, b) => Notice::Range(a, b, n),
            TimeCommand::Before(t) => Notice::Before(t, n),
            TimeCommand::Span(a, b) => Notice::Range(a, b, n),
            TimeCommand::From(t) => Notice::From(t, n),
            TimeCommand::Invalid => Notice::InvalidTime,
        };
        self.flash = Some(notice);
    }

    /// Steps back one picker step, rebuilding that step's candidates from the data.
    pub fn cancel_time_filter(&mut self)
        requires
            old(self).wf(),
        ensures
            final(self).wf(),
            old(self).picker_cancelled(*final(self)),
    {
        match self.time_filter_sub {
            TimeFilterSub::Custom => {
                self.time_filter_sub = TimeFilterSub::Picker;
                self.time_input = String::new();
                self.time_picker_selected = Some(0);
            },
            TimeFilterSub::CustomRangeEndHour(start, _) => {
                let ends = keep_days_from(&self.unique_dates, start.day);
                proof {
                    lemma_days_from(self.unique_dates@, start.day as int);
                    assert forall|k: int| 0 <= k < ends@.len() implies day_in_range(#[trigger] ends@[k] as int) by {
                        assert(ends@.contains(ends@[k]));
                        assert(self.unique_dates@.contains(ends@[k]));
                    }
                }
                self.date_picker_end_dates = ends;
                self.time_filter_sub = TimeFilterSub::CustomRangeEnd(start);
                self.date_picker_selected = if self.date_picker_end_dates.len() == 0 {
                    None
                } else {
                    Some(0)
                };
            },
            TimeFilterSub::CustomRangeEnd(start) => {
                let d = start.day;
                self.time_filter_sub = TimeFilterSub::CustomRangeStartHour(d);
                self.date_picker_hours = unique_hours_for_date(self.events.as_slice(), d);
                if self.date_picker_hours.len() == 0 {
                    self.date_picker_selected = None;
                } else {
                    let pos = position_of_hour(&self.date_picker_hours, start.hour());
                    self.date_picker_selected = Some(pos);
                }
            },
            TimeFilterSub::CustomRangeStartHour(_) => {
                self.time_filter_sub = TimeFilterSub::CustomRangeStart;
                self.date_picker_hours = Vec::new();
                self.date_picker_selected = Some(0);
            },
            TimeFilterSub::CustomRangeStart => {
                self.time_filter_sub = TimeFilterSub::Picker;
                self.time_picker_selected = Some(0);
            },
            TimeFilterSub::Picker => {
                self.time_input = String::new();
                self.mode = Mode::Normal;
            },
        }
    }

    /// Appends a character to the typed range.
    pub fn push_time_char(&mut self, c: char)
        requires
            old(self).wf(),
        ensures
            final(self).wf(),
            final(self).time_input@ == old(self).time_input@.push(c),
            final(self).same_data(*old(self)),
            final(self).same_filters(*old(self)),
            final(self).same_list(*old(self)),
            final(self).same_picker(*old(self)),
            final(self).search_input == old(self).search_input,
            final(self).same_status(*old(self)),
    {
        push_char(&mut self.time_input, c);
    }

    /// Removes the last character of the typed range, if any.
    pub fn pop_time_char(&mut self)
        requires
            old(self).wf(),
        ensures
            final(self).wf(),
            old(self).time_input@.len() > 0 ==> final(self).time_input@ == old(self).time_input@.drop_last(),
            old(self).time_input@.len() == 0 ==> final(self).time_input@ == old(self).time_input@,
            final(self).same_data(*old(self)),
            final(self).same_filters(*old(self)),
            final(self).same_list(*old(self)),
            final(self).same_picker(*old(self)),
            final(self).search_input == old(self).search_input,
            final(self).same_status(*old(self)),
    {
        pop_char(&mut self.time_input);
    }
}

} // verus!
