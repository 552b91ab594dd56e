//! The filter pipeline over a sequence of events, and the distinct values
//! (action types, dates, hours) that the pickers offer.

use crate::text::{Trim, same_text, trim, trim_str};
use crate::time::{day_in_range, Timestamp};
use crate::timeline::TimelineEvent;
use vstd::prelude::*;

verus! {

/// The category filter in force: the trimmed filter text, unless absent or blank.
pub open spec fn category_filter(filter: Option<Seq<char>>) -> Option<Seq<char>> {
    match filter {
        Some(f) => if trim(f).len() > 0 {
            Some(trim(f))
        } else {
            None
        },
        None => None,
    }
}

/// Whether the event's action type equals the category filter in force.
pub open spec fn category_ok(ev: TimelineEvent, filter: Option<Seq<char>>) -> bool {
    match category_filter(filter) {
        Some(c) => ev.action_type matches Some(a) && a@ == c,
        None => true,
    }
}

/// Whether an event passes every active predicate: category, time range and search.
pub open spec fn passes(
    ev: TimelineEvent,
    filter: Option<Seq<char>>,
    start: Option<Timestamp>,
    end: Option<Timestamp>,
    search: Seq<char>,
) -> bool {
    category_ok(ev, filter) && ev.time_within(start, end) && ev.search_matches(search)
}

/// The positions, in load order, of the first `n` events that pass.
pub open spec fn passing(
    events: Seq<TimelineEvent>,
    filter: Option<Seq<char>>,
    start: Option<Timestamp>,
    end: Option<Timestamp>,
    search: Seq<char>,
    n: int,
) -> Seq<usize>
    decreases n,
{
    if n <= 0 {
        Seq::empty()
    } else {
        let before = passing(events, filter, start, end, search, n - 1);
        if passes(events[n - 1], filter, start, end, search) {
            before.push((n - 1) as usize)
        } else {
            before
        }
    }
}

/// The positions of all events that pass, in load order.
pub open spec fn filtered(
    events: Seq<TimelineEvent>,
    filter: Option<Seq<char>>,
    start: Option<Timestamp>,
    end: Option<Timestamp>,
    search: Seq<char>,
) -> Seq<usize> {
    passing(events, filter, start, end, search, events.len() as int)
}

/// Positions that pass are below `n` and strictly increasing.
pub proof fn lemma_passing_ordered(
    events: Seq<TimelineEvent>,
    filter: Option<Seq<char>>,
    start: Option<Timestamp>,
    end: Option<Timestamp>,
    search: Seq<char>,
    n: int,
)
    requires
        n <= events.len(),
        events.len() <= usize::MAX,
    ensures
        forall|j: int|
            0 <= j < passing(events, filter, start, end, search, n).len() ==> #[trigger] passing(
                events,
                filter,
                start,
                end,
                search,
                n,
            )[j] < n,
        forall|j: int, k: int|
            0 <= j < k < passing(events, filter, start, end, search, n).len() ==> passing(
                events,
                filter,
                start,
                end,
                search,
                n,
            )[j] < passing(events, filter, start, end, search, n)[k],
        passing(events, filter, start, end, search, n).len() <= if n < 0 {
            0
        } else {
            n
        },
    decreases n,
{
    if n > 0 {
        lemma_passing_ordered(events, filter, start, end, search, n - 1);
    }
}

/// The view of an optional string slice.
pub open spec fn opt_view(s: Option<&str>) -> Option<Seq<char>> {
    match s {
        Some(x) => Some(x@),
        None => None,
    }
}

/// Whether `ev` matches the category filter in force, given as already trimmed text.
fn category_matches(ev: &TimelineEvent, category: Option<&str>) -> (r: bool)
    ensures
        r == (match category {
            Some(c) => ev.action_type matches Some(a) && a@ == c@,
            None => true,
        }),
{
    match category {
        Some(c) => match &ev.action_type {
            Some(a) => same_text(a.as_str(), c),
            None => false,
        },
        None => true,
    }
}

/// The category filter in force, as text.
fn active_category<'a>(filter: Option<&'a str>) -> (r: Option<&'a str>)
    ensures
        opt_view(r) == category_filter(opt_view(filter)),
{
    match filter {
        Some(f) => {
            let t = trim_str(f, Trim::Space);
            if t.unicode_len() > 0 {
                Some(t)
            } else {
                None
            }
        },
        None => None,
    }
}

/// Whether one event passes the category, time-range and search predicates.
pub fn event_passes(
    ev: &TimelineEvent,
    filter: Option<&str>,
    start: Option<Timestamp>,
    end: Option<Timestamp>,
    search: &str,
) -> (r: bool)
    ensures
        r == passes(*ev, opt_view(filter), start, end, search@),
{
    let category = active_category(filter);
    category_matches(ev, category) && ev.in_time_range(start, end) && ev.matches_search(search)
}

/// The positions of the events that pass every active predicate, in load order.
pub fn filter_indices(
    events: &[TimelineEvent],
    filter: Option<&str>,
    start: Option<Timestamp>,
    end: Option<Timestamp>,
    search: &str,
) -> (r: Vec<usize>)
    ensures
        r@ == filtered(events@, opt_view(filter), start, end, search@),
{
    let mut out: Vec<usize> = Vec::new();
    let mut i: usize = 0;
    while i < events.len()
        invariant
            i <= events@.len(),
            out@ == passing(events@, opt_view(filter), start, end, search@, i as int),
        decreases events@.len() - i,
    {
        if event_passes(&events[i], filter, start, end, search) {
            out.push(i);
        }
        i += 1;
    }
    out
}

/// The events that match the category filter (trimmed; blank means none) and
/// the search string, in load order.
pub fn filter_events<'a>(
    events: &'a [TimelineEvent],
    action_type_filter: Option<&str>,
    search: &str,
) -> (r: Vec<&'a TimelineEvent>)
    ensures
        r@.len() == filtered(events@, opt_view(action_type_filter), None, None, search@).len(),
        forall|k: int|
            0 <= k < r@.len() ==> *r@[k] == events@[filtered(
                events@,
                opt_view(action_type_filter),
                None,
                None,
                search@,
            )[k] as int],
{
    let idx = filter_indices(events, action_type_filter, None, None, search);
    let ghost kept = filtered(events@, opt_view(action_type_filter), None, None, search@);
    let len = events.len();
    proof {
        lemma_passing_ordered(
            events@,
            opt_view(action_type_filter),
            None,
            None,
            search@,
            events@.len() as int,
        );
    }
    let mut out: Vec<&'a TimelineEvent> = Vec::new();
    let mut k: usize = 0;
    while k < idx.len()
        invariant
            k <= idx@.len(),
            idx@ == kept,
            kept == filtered(events@, opt_view(action_type_filter), None, None, search@),
            forall|j: int| 0 <= j < idx@.len() ==> idx@[j] < events@.len(),
            out@.len() == k,
            forall|j: int| 0 <= j < k ==> *out@[j] == events@[kept[j] as int],
        decreases idx@.len() - k,
    {
        out.push(&events[idx[k]]);
        k += 1;
    }
    out
}

/// Lexicographic order on texts by code point, a strict prefix first.
pub open spec fn text_lt(a: Seq<char>, b: Seq<char>) -> bool
    decreases a.len(),
{
    if a.len() == 0 {
        b.len() > 0
    } else if b.len() == 0 {
        false
    } else if a[0] != b[0] {
        a[0] < b[0]
    } else {
        text_lt(a.drop_first(), b.drop_first())
    }
}

proof fn lemma_text_lt_transitive(a: Seq<char>, b: Seq<char>, c: Seq<char>)
    requires
        text_lt(a, b),
        text_lt(b, c),
    ensures
        text_lt(a, c),
    decreases a.len(),
{
    if a.len() > 0 && b.len() > 0 && c.len() > 0 && a[0] == b[0] && b[0] == c[0] {
        lemma_text_lt_transitive(a.drop_first(), b.drop_first(), c.drop_first());
    }
}

proof fn lemma_text_lt_total(a: Seq<char>, b: Seq<char>)
    requires
        a != b,
    ensures
        text_lt(a, b) || text_lt(b, a),
    decreases a.len(),
{
    if a.len() > 0 && b.len() > 0 && a[0] == b[0] {
        if a.drop_first() == b.drop_first() {
            assert(a =~= seq![a[0]] + a.drop_first());
            assert(b =~= seq![b[0]] + b.drop_first());
        }
        lemma_text_lt_total(a.drop_first(), b.drop_first());
    } else if a.len() > 0 && b.len() > 0 {
    } else if a.len() == 0 && b.len() == 0 {
        assert(a =~= b);
    }
}

/// Relies on the `Ord` of `str`: lexicographic order of the bytes, which for
/// UTF-8 text is the lexicographic order of the characters' code points.
#[verifier::external_body]
fn text_less(a: &str, b: &str) -> (r: bool)
    ensures
        r == text_lt(a@, b@),
{
    a < b
}

/// The character views of a list of strings.
pub open spec fn texts(v: Seq<String>) -> Seq<Seq<char>> {
    v.map_values(|s: String| s@)
}

/// Strictly increasing in text order.
pub open spec fn texts_sorted(s: Seq<Seq<char>>) -> bool {
    forall|i: int, j: int| 0 <= i < j < s.len() ==> text_lt(s[i], s[j])
}

/// Strictly increasing day numbers.
pub open spec fn days_sorted(s: Seq<i32>) -> bool {
    forall|i: int, j: int| 0 <= i < j < s.len() ==> s[i] < s[j]
}

/// Strictly increasing hours.
pub open spec fn hours_sorted(s: Seq<u32>) -> bool {
    forall|i: int, j: int| 0 <= i < j < s.len() ==> s[i] < s[j]
}

/// The action type of an event as text, when it has a non-empty one.
pub open spec fn action_text(ev: TimelineEvent) -> Option<Seq<char>> {
    match ev.action_type {
        Some(a) => if a@.len() > 0 {
            Some(a@)
        } else {
            None
        },
        None => None,
    }
}

/// Some event among the first `n` has the non-empty action type `s`.
pub open spec fn has_action_type(events: Seq<TimelineEvent>, n: int, s: Seq<char>) -> bool {
    exists|i: int| 0 <= i < n && #[trigger] action_text(events[i]) == Some(s)
}

/// The event has a readable time on day `d`.
pub open spec fn time_on(ev: TimelineEvent, d: int) -> bool {
    match ev.time_spec() {
        Some(t) => t.day == d,
        None => false,
    }
}

/// The event has a readable time on day `d` within hour `h`.
pub open spec fn time_at_hour(ev: TimelineEvent, d: int, h: int) -> bool {
    match ev.time_spec() {
        Some(t) => t.day == d && t.hour_of() == h,
        None => false,
    }
}

/// Some event among the first `n` has a readable time on day `d`.
pub open spec fn has_date(events: Seq<TimelineEvent>, n: int, d: int) -> bool {
    exists|i: int| 0 <= i < n && #[trigger] time_on(events[i], d)
}

/// Some event among the first `n` has a readable time on day `d` within hour `h`.
pub open spec fn has_hour(events: Seq<TimelineEvent>, n: int, d: int, h: int) -> bool {
    exists|i: int| 0 <= i < n && #[trigger] time_at_hour(events[i], d, h)
}

/// `s` lists, in increasing order, exactly the days on which some event has a readable time.
pub open spec fn is_date_list(events: Seq<TimelineEvent>, s: Seq<i32>) -> bool {
    &&& days_sorted(s)
    &&& forall|k: int| 0 <= k < s.len() ==> has_date(events, events.len() as int, #[trigger] s[k] as int)
    &&& forall|d: int| #[trigger] has_date(events, events.len() as int, d) ==> s.contains(d as i32)
}

/// `s` lists, in increasing order, exactly the hours of day `d` in which some event has a readable time.
pub open spec fn is_hour_list(events: Seq<TimelineEvent>, d: int, s: Seq<u32>) -> bool {
    &&& hours_sorted(s)
    &&& forall|k: int| 0 <= k < s.len() ==> has_hour(events, events.len() as int, d, #[trigger] s[k] as int)
    &&& forall|h: int| #[trigger] has_hour(events, events.len() as int, d, h) ==> s.contains(h as u32)
}

fn insert_text(out: &mut Vec<String>, x: &String)
    requires
        texts_sorted(texts(old(out)@)),
    ensures
        texts_sorted(texts(final(out)@)),
        forall|s: Seq<char>| #[trigger]
            texts(final(out)@).contains(s) <==> texts(old(out)@).contains(s) || s == x@,
{
    let ghost before = texts(out@);
    let mut p: usize = 0;
    while p < out.len() && text_less(out[p].as_str(), x.as_str())
        invariant
            p <= out@.len(),
            before == texts(out@),
            texts_sorted(before),
            forall|k: int| 0 <= k < p ==> text_lt(#[trigger] before[k], x@),
        decreases out@.len() - p,
    {
        p += 1;
    }
    if p < out.len() && same_text(out[p].as_str(), x.as_str()) {
        assert(before[p as int] == x@);
        return;
    }
    proof {
        if p < before.len() {
            lemma_text_lt_total(before[p as int], x@);
            assert forall|k: int| p <= k < before.len() implies text_lt(x@, #[trigger] before[k]) by {
                if k > p {
                    lemma_text_lt_transitive(x@, before[p as int], before[k]);
                }
            }
        }
    }
    out.insert(p, x.clone());
    assert(texts(out@) =~= before.insert(p as int, x@));
    proof {
        assert forall|s: Seq<char>| #[trigger]
            texts(out@).contains(s) <==> before.contains(s) || s == x@ by {
            if texts(out@).contains(s) {
                let k = choose|k: int| 0 <= k < texts(out@).len() && texts(out@)[k] == s;
                if k < p {
                    assert(before[k] == s);
                } else if k > p {
                    assert(before[k - 1] == s);
                }
            }
            if before.contains(s) {
                let k = choose|k: int| 0 <= k < before.len() && before[k] == s;
                if k < p {
                    assert(texts(out@)[k] == s);
                } else {
                    assert(texts(out@)[k + 1] == s);
                }
            }
            if s == x@ {
                assert(texts(out@)[p as int] == s);
            }
        }
    }
}

/// The distinct non-empty action types of the events, in increasing order.
pub fn unique_action_types(events: &[TimelineEvent]) -> (r: Vec<String>)
    ensures
        texts_sorted(texts(r@)),
        forall|s: Seq<char>| #[trigger]
            texts(r@).contains(s) <==> has_action_type(events@, events@.len() as int, s),
{
    let mut out: Vec<String> = Vec::new();
    let mut i: usize = 0;
    while i < events.len()
        invariant
            i <= events@.len(),
            texts_sorted(texts(out@)),
            forall|s: Seq<char>| #[trigger]
                texts(out@).contains(s) <==> has_action_type(events@, i as int, s),
        decreases events@.len() - i,
    {
        let ghost prev = texts(out@);
        if let Some(a) = &events[i].action_type {
            if a.as_str().unicode_len() > 0 {
                insert_text(&mut out, a);
            }
        }
        proof {
            assert forall|s: Seq<char>| #[trigger]
                texts(out@).contains(s) <==> has_action_type(events@, i + 1, s) by {
                if has_action_type(events@, i + 1, s) {
                    let k = choose|k: int| 0 <= k < i + 1 && #[trigger] action_text(events@[k]) == Some(s);
                    if k < i {
                        assert(has_action_type(events@, i as int, s));
                    }
                }
                if has_action_type(events@, i as int, s) {
                    let k = choose|k: int| 0 <= k < i && #[trigger] action_text(events@[k]) == Some(s);
                    assert(has_action_type(events@, i + 1, s));
                }
                if action_text(events@[i as int]) == Some(s) {
                    assert(has_action_type(events@, i + 1, s));
                }
            }
        }
        i += 1;
    }
    out
}

fn insert_day(out: &mut Vec<i32>, x: i32)
    requires
        days_sorted(old(out)@),
    ensures
        days_sorted(final(out)@),
        forall|d: i32| #[trigger] final(out)@.contains(d) <==> old(out)@.contains(d) || d == x,
{
    let ghost before = out@;
    let mut p: usize = 0;
    while p < out.len() && out[p] < x
        invariant
            p <= out@.len(),
            before == out@,
            days_sorted(before),
            forall|k: int| 0 <= k < p ==> #[trigger] before[k] < x,
        decreases out@.len() - p,
    {
        p += 1;
    }
    if p < out.len() && out[p] == x {
        return;
    }
    out.insert(p, x);
    proof {
        assert forall|d: i32| #[trigger] out@.contains(d) <==> before.contains(d) || d == x by {
            if out@.contains(d) {
                let k = choose|k: int| 0 <= k < out@.len() && out@[k] == d;
                if k < p {
                    assert(before[k] == d);
                } else if k > p {
                    assert(before[k - 1] == d);
                }
            }
            if before.contains(d) {
                let k = choose|k: int| 0 <= k < before.len() && before[k] == d;
                if k < p {
                    assert(out@[k] == d);
                } else {
                    assert(out@[k + 1] == d);
                }
            }
            if d == x {
                assert(out@[p as int] == d);
            }
        }
    }
}

fn insert_hour(out: &mut Vec<u32>, x: u32)
    requires
        hours_sorted(old(out)@),
    ensures
        hours_sorted(final(out)@),
        forall|h: u32| #[trigger] final(out)@.contains(h) <==> old(out)@.contains(h) || h == x,
{
    let ghost before = out@;
    let mut p: usize = 0;
    while p < out.len() && out[p] < x
        invariant
            p <= out@.len(),
            before == out@,
            hours_sorted(before),
            forall|k: int| 0 <= k < p ==> #[trigger] before[k] < x,
        decreases out@.len() - p,
    {
        p += 1;
    }
    if p < out.len() && out[p] == x {
        return;
    }
    out.insert(p, x);
    proof {
        assert forall|h: u32| #[trigger] out@.contains(h) <==> before.contains(h) || h == x by {
            if out@.contains(h) {
                let k = choose|k: int| 0 <= k < out@.len() && out@[k] == h;
                if k < p {
                    assert(before[k] == h);
                } else if k > p {
                    assert(before[k - 1] == h);
                }
            }
            if before.contains(h) {
                let k = choose|k: int| 0 <= k < before.len() && before[k] == h;
                if k < p {
                    assert(out@[k] == h);
                } else {
                    assert(out@[k + 1] == h);
                }
            }
            if h == x {
                assert(out@[p as int] == h);
            }
        }
    }
}

/// The distinct days on which events have a readable time, in increasing order.
pub fn unique_dates_from_events(events: &[TimelineEvent]) -> (r: Vec<i32>)
    ensures
        is_date_list(events@, r@),
        forall|k: int| 0 <= k < r@.len() ==> day_in_range(#[trigger] r@[k] as int),
{
    let mut out: Vec<i32> = Vec::new();
    let mut i: usize = 0;
    while i < events.len()
        invariant
            i <= events@.len(),
            days_sorted(out@),
            forall|k: int| 0 <= k < out@.len() ==> has_date(events@, i as int, #[trigger] out@[k] as int),
            forall|d: int| #[trigger] has_date(events@, i as int, d) ==> out@.contains(d as i32),
            forall|k: int| 0 <= k < out@.len() ==> day_in_range(#[trigger] out@[k] as int),
        decreases events@.len() - i,
    {
        let ghost prev = out@;
        let t = events[i].event_time_parsed();
        if let Some(t) = t {
            insert_day(&mut out, t.day);
        }
        proof {
            assert forall|k: int| 0 <= k < out@.len() implies has_date(events@, i + 1, #[trigger] out@[k] as int) && day_in_range(out@[k] as int) by {
                assert(out@.contains(out@[k]));
                if prev.contains(out@[k]) {
                    let j = choose|j: int| 0 <= j < prev.len() && prev[j] == out@[k];
                    assert(has_date(events@, i as int, prev[j] as int));
                    let e = choose|e: int| 0 <= e < i && #[trigger] time_on(events@[e], prev[j] as int);
                    assert(has_date(events@, i + 1, out@[k] as int));
                } else {
                    assert(time_on(events@[i as int], out@[k] as int));
                    assert(has_date(events@, i + 1, out@[k] as int));
                }
            }
            assert forall|d: int| #[trigger] has_date(events@, i + 1, d) implies out@.contains(d as i32) by {
                let e = choose|e: int| 0 <= e < i + 1 && #[trigger] time_on(events@[e], d);
                if e < i {
                    assert(has_date(events@, i as int, d));
                }
            }
        }
        i += 1;
    }
    out
}

/// The distinct hours of `date` in which events have a readable time, in increasing order.
pub fn unique_hours_for_date(events: &[TimelineEvent], date: i32) -> (r: Vec<u32>)
    ensures
        is_hour_list(events@, date as int, r@),
        forall|k: int| 0 <= k < r@.len() ==> #[trigger] r@[k] < 24,
{
    let mut out: Vec<u32> = Vec::new();
    let mut i: usize = 0;
    while i < events.len()
        invariant
            i <= events@.len(),
            hours_sorted(out@),
            forall|k: int| 0 <= k < out@.len() ==> has_hour(events@, i as int, date as int, #[trigger] out@[k] as int),
            forall|h: int| #[trigger] has_hour(events@, i as int, date as int, h) ==> out@.contains(h as u32),
            forall|k: int| 0 <= k < out@.len() ==> #[trigger] out@[k] < 24,
        decreases events@.len() - i,
    {
        let ghost prev = out@;
        let t = events[i].event_time_parsed();
        if let Some(t) = t {
            if t.day == date {
                insert_hour(&mut out, t.hour());
            }
        }
        proof {
            assert forall|k: int| 0 <= k < out@.len() implies has_hour(events@, i + 1, date as int, #[trigger] out@[k] as int) && out@[k] < 24 by {
                assert(out@.contains(out@[k]));
                if prev.contains(out@[k]) {
                    let j = choose|j: int| 0 <= j < prev.len() && prev[j] == out@[k];
                    assert(has_hour(events@, i as int, date as int, prev[j] as int));
                    let e = choose|e: int| 0 <= e < i && #[trigger] time_at_hour(events@[e], date as int, prev[j] as int);
                    assert(has_hour(events@, i + 1, date as int, out@[k] as int));
                } else {
                    assert(time_at_hour(events@[i as int], date as int, out@[k] as int));
                    assert(has_hour(events@, i + 1, date as int, out@[k] as int));
                }
            }
            assert forall|h: int| #[trigger] has_hour(events@, i + 1, date as int, h) implies out@.contains(h as u32) by {
                let e = choose|e: int| 0 <= e < i + 1 && #[trigger] time_at_hour(events@[e], date as int, h);
                if e < i {
                    assert(has_hour(events@, i as int, date as int, h));
                }
            }
        }
        i += 1;
    }
    out
}

} // verus!
