//! The viewing session: the loaded events, the active filters, the filtered
//! view with its selection, and the input modes around them.

use crate::filters::{
    filter_indices, filtered, has_action_type, is_date_list, texts, texts_sorted,
    unique_action_types, unique_dates_from_events,
};
use crate::text::{Trim, pop_char, push_char, same_text, trim, trim_str};
use crate::time::{day_in_range, Timestamp};
use crate::timeline::TimelineEvent;
use vstd::prelude::*;
use vstd::string::*;

verus! {

/// The input mode of the session.
#[derive(Clone, Copy, Debug, PartialEq, Eq, Structural)]
pub enum Mode {
    Normal,
    SearchInput,
    ActionTypeFilter,
    TimeFilter,
}

/// The step of the time-range picker, with what each step needs to go on
/// or to go back. Days are day numbers (see `Timestamp`).
#[derive(Clone, Copy, Debug, PartialEq, Eq, Structural)]
pub enum TimeFilterSub {
    /// The preset list.
    Picker,
    /// Choosing a start date among the dates in the data.
    CustomRangeStart,
    /// Choosing a start hour on the given date.
    CustomRangeStartHour(i32),
    /// Choosing an end date, the start being fixed.
    CustomRangeEnd(Timestamp),
    /// Choosing an end hour on the given date, the start being fixed.
    CustomRangeEndHour(Timestamp, i32),
    /// Typing a range as text.
    Custom,
}

/// A transient notice for the user.
#[derive(Clone, Debug)]
pub enum Notice {
    /// Free text.
    Message(String),
    /// A search that found nothing.
    NoResultsFor(String),
    /// The category filter leaves nothing.
    NoMatches,
    /// A search and the number of events it shows.
    SearchResults(String, usize),
    /// The data holds no dates to pick from.
    NoDates,
    /// A range with both bounds, and the number of events in it.
    Range(Timestamp, Timestamp, usize),
    /// Events after a start, typed as `after <t>` or `from <t>`.
    After(Timestamp, usize),
    /// Events before an end.
    Before(Timestamp, usize),
    /// Events from a start, for a bare time or a range with a start only.
    From(Timestamp, usize),
    /// The number of events shown.
    Count(usize),
    /// The time range was cleared.
    TimeCleared,
    /// The typed range could not be read.
    InvalidTime,
    /// A category filter was set.
    FilterSet(String, usize),
    /// The category filter was cleared.
    FilterCleared,
    /// Some of search, category filter and time range were cleared.
    Cleared { search: bool, filter: bool, time: bool },
}

/// One interactive session over a loaded, immutable sequence of events.
pub struct App {
    pub events: Vec<TimelineEvent>,
    /// The distinct action types, in increasing order.
    pub action_types: Vec<String>,
    /// Positions in `events` of the events the view lists, in load order.
    pub filtered_indices: Vec<usize>,
    /// Selected position in `filtered_indices`.
    pub selected: Option<usize>,
    pub action_type_filter: Option<String>,
    pub search: String,
    pub search_input: String,
    /// Inclusive lower bound of the time range.
    pub time_range_start: Option<Timestamp>,
    /// Inclusive upper bound of the time range.
    pub time_range_end: Option<Timestamp>,
    /// Text typed in the `Custom` step.
    pub time_input: String,
    pub time_filter_sub: TimeFilterSub,
    /// Selected preset.
    pub time_picker_selected: Option<usize>,
    /// The distinct days with events, in increasing order.
    pub unique_dates: Vec<i32>,
    /// End-date candidates in the `CustomRangeEnd` step.
    pub date_picker_end_dates: Vec<i32>,
    /// Hour candidates in the hour steps.
    pub date_picker_hours: Vec<u32>,
    /// Selected date or hour candidate.
    pub date_picker_selected: Option<usize>,
    pub should_quit: bool,
    pub detail_scroll: u16,
    pub flash: Option<Notice>,
    pub error: Option<String>,
    pub mode: Mode,
    /// Selected action type in the category picker.
    pub action_type_selected: Option<usize>,
}

/// The view of an optional string.
pub open spec fn opt_text(o: Option<String>) -> Option<Seq<char>> {
    match o {
        Some(s) => Some(s@),
        None => None,
    }
}

/// The default selection of a list of `n` items: the first, if there is one.
pub open spec fn first_of(n: int) -> Option<usize> {
    if n == 0 {
        None
    } else {
        Some(0)
    }
}

/// The position of `x` in `s` from `i` on, or 0 when it is absent.
pub open spec fn text_position(s: Seq<Seq<char>>, x: Seq<char>, i: int) -> int
    decreases s.len() - i,
{
    if i < 0 || i >= s.len() {
        0
    } else if s[i] == x {
        i
    } else {
        text_position(s, x, i + 1)
    }
}

/// The selection moved one step down, stopping at the last of `n` items.
pub open spec fn step_down(sel: Option<usize>, n: int) -> Option<usize> {
    if n == 0 {
        None
    } else {
        match sel {
            Some(i) => if i + 1 < n {
                Some((i + 1) as usize)
            } else {
                Some((n - 1) as usize)
            },
            None => Some(0),
        }
    }
}

/// The selection moved one step up, stopping at the first item.
pub open spec fn step_up(sel: Option<usize>, n: int) -> Option<usize> {
    if n == 0 {
        None
    } else {
        match sel {
            Some(i) => if i > 0 {
                Some((i - 1) as usize)
            } else {
                Some(0)
            },
            None => Some(0),
        }
    }
}

/// The selection after `step_down` in exec form.
pub fn select_next(sel: Option<usize>, n: usize) -> (r: Option<usize>)
    ensures
        r == step_down(sel, n as int),
{
    if n == 0 {
        None
    } else {
        match sel {
            Some(i) => if i < n - 1 {
                Some(i + 1)
            } else {
                Some(n - 1)
            },
            None => Some(0),
        }
    }
}

/// The selection after `step_up` in exec form.
pub fn select_previous(sel: Option<usize>, n: usize) -> (r: Option<usize>)
    ensures
        r == step_up(sel, n as int),
{
    if n == 0 {
        None
    } else {
        match sel {
            Some(i) => if i > 0 {
                Some(i - 1)
            } else {
                Some(0)
            },
            None => Some(0),
        }
    }
}

/// The notice for a search that was just committed.
pub open spec fn search_notice(search: String, filter: Option<String>, n: int) -> Notice {
    if n == 0 && search@.len() > 0 {
        Notice::NoResultsFor(search)
    } else if n == 0 && filter is Some {
        Notice::NoMatches
    } else {
        Notice::SearchResults(search, n as usize)
    }
}

impl App {
    /// The invariant of a session.
    pub open spec fn wf(self) -> bool {
        &&& is_date_list(self.events@, self.unique_dates@)
        &&& forall|k: int|
            0 <= k < self.unique_dates@.len() ==> day_in_range(#[trigger] self.unique_dates@[k] as int)
        &&& forall|k: int|
            0 <= k < self.date_picker_end_dates@.len() ==> day_in_range(
                #[trigger] self.date_picker_end_dates@[k] as int,
            )
        &&& forall|k: int| 0 <= k < self.date_picker_hours@.len() ==> #[trigger] self.date_picker_hours@[k] < 24
        &&& self.time_range_start matches Some(s) ==> s.wf()
        &&& self.time_range_end matches Some(e) ==> e.wf()
        &&& match self.time_filter_sub {
            TimeFilterSub::CustomRangeStartHour(d) => day_in_range(d as int),
            TimeFilterSub::CustomRangeEnd(t) => t.wf(),
            TimeFilterSub::CustomRangeEndHour(t, d) => t.wf() && day_in_range(d as int),
            _ => true,
        }
    }

    /// The positions the view should list under the current filters.
    pub open spec fn visible(self) -> Seq<usize> {
        filtered(
            self.events@,
            opt_text(self.action_type_filter),
            self.time_range_start,
            self.time_range_end,
            self.search@,
        )
    }

    /// The view lists what the filters let through, the selection is on the
    /// first listed event (none when the list is empty), and the detail view
    /// is scrolled to the top.
    pub open spec fn refreshed(self) -> bool {
        &&& self.filtered_indices@ == self.visible()
        &&& self.selected == first_of(self.filtered_indices@.len() as int)
        &&& self.detail_scroll == 0
    }

    pub open spec fn same_data(self, o: App) -> bool {
        &&& self.events == o.events
        &&& self.action_types == o.action_types
        &&& self.unique_dates == o.unique_dates
    }

    pub open spec fn same_filters(self, o: App) -> bool {
        &&& self.action_type_filter == o.action_type_filter
        &&& self.search == o.search
        &&& self.time_range_start == o.time_range_start
        &&& self.time_range_end == o.time_range_end
    }

    pub open spec fn same_list(self, o: App) -> bool {
        &&& self.filtered_indices == o.filtered_indices
        &&& self.selected == o.selected
        &&& self.detail_scroll == o.detail_scroll
    }

    pub open spec fn same_picker(self, o: App) -> bool {
        &&& self.time_filter_sub == o.time_filter_sub
        &&& self.time_picker_selected == o.time_picker_selected
        &&& self.date_picker_end_dates == o.date_picker_end_dates
        &&& self.date_picker_hours == o.date_picker_hours
        &&& self.date_picker_selected == o.date_picker_selected
    }

    /// Everything but the picker's own fields is unchanged.
    pub open spec fn same_outside_picker(self, o: App) -> bool {
        &&& self.same_data(o)
        &&& self.same_filters(o)
        &&& self.same_list(o)
        &&& self.search_input == o.search_input
        &&& self.time_input == o.time_input
        &&& self.same_status(o)
    }

    pub open spec fn same_status(self, o: App) -> bool {
        &&& self.mode == o.mode
        &&& self.flash == o.flash
        &&& self.error == o.error
        &&& self.should_quit == o.should_quit
        &&& self.action_type_selected == o.action_type_selected
    }

    /// `p` is `self` with the filtered view recomputed from the current
    /// filters, the selection on the first listed event and the detail view
    /// at the top; nothing else changes.
    pub open spec fn filters_applied(self, p: App) -> bool {
        &&& p.refreshed()
        &&& p.same_data(self)
        &&& p.same_filters(self)
        &&& p.search_input == self.search_input
        &&& p.time_input == self.time_input
        &&& p.same_picker(self)
        &&& p.same_status(self)
    }

    /// A session over `events` with no filter: every event listed, the first
    /// selected, nothing typed, normal mode.
    pub fn new(events: Vec<TimelineEvent>) -> (r: App)
        ensures
            r.wf(),
            r.events == events,
            texts_sorted(texts(r.action_types@)),
            forall|s: Seq<char>| #[trigger]
                texts(r.action_types@).contains(s) <==> has_action_type(events@, events@.len() as int, s),
            r.filtered_indices@.len() == events@.len(),
            forall|k: int| 0 <= k < events@.len() ==> #[trigger] r.filtered_indices@[k] == k,
            r.selected == first_of(events@.len() as int),
            r.action_type_filter is None,
            r.search@.len() == 0,
            r.search_input@.len() == 0,
            r.time_range_start is None,
            r.time_range_end is None,
            r.time_input@.len() == 0,
            r.time_filter_sub == TimeFilterSub::Picker,
            r.time_picker_selected is None,
            r.date_picker_end_dates@.len() == 0,
            r.date_picker_hours@.len() == 0,
            r.date_picker_selected is None,
            !r.should_quit,
            r.detail_scroll == 0,
            r.flash is None,
            r.error is None,
            r.mode == Mode::Normal,
            r.action_type_selected is None,
    {
        let action_types = unique_action_types(events.as_slice());
        let unique_dates = unique_dates_from_events(events.as_slice());
        let mut all: Vec<usize> = Vec::new();
        let mut i: usize = 0;
        while i < events.len()
            invariant
                i <= events@.len(),
                all@.len() == i,
                forall|k: int| 0 <= k < i ==> #[trigger] all@[k] == k,
            decreases events@.len() - i,
        {
            all.push(i);
            i += 1;
        }
        let selected = if all.len() == 0 {
            None
        } else {
            Some(0)
        };
        App {
            events,
            action_types,
            filtered_indices: all,
            selected,
            action_type_filter: None,
            search: String::new(),
            search_input: String::new(),
            time_range_start: None,
            time_range_end: None,
            time_input: String::new(),
            time_filter_sub: TimeFilterSub::Picker,
            time_picker_selected: None,
            unique_dates,
            date_picker_end_dates: Vec::new(),
            date_picker_hours: Vec::new(),
            date_picker_selected: None,
            should_quit: false,
            detail_scroll: 0,
            flash: None,
            error: None,
            mode: Mode::Normal,
            action_type_selected: None,
        }
    }

    /// Recomputes the filtered view from the current filters and resets the
    /// selection to the first listed event and the detail scroll to the top.
    pub fn apply_filters(&mut self)
        requires
            old(self).wf(),
        ensures
            final(self).wf(),
            old(self).filters_applied(*final(self)),
    {
        let idx = match &self.action_type_filter {
            Some(f) => filter_indices(
                self.events.as_slice(),
                Some(f.as_str()),
                self.time_range_start,
                self.time_range_end,
                self.search.as_str(),
            ),
            None => filter_indices(
                self.events.as_slice(),
                None,
                self.time_range_start,
                self.time_range_end,
                self.search.as_str(),
            ),
        };
        self.selected = if idx.len() == 0 {
            None
        } else {
            Some(0)
        };
        self.filtered_indices = idx;
        self.detail_scroll = 0;
    }

    /// The selected event, if the selection points at one.
    pub fn selected_event(&self) -> (r: Option<&TimelineEvent>)
        ensures
            r is Some <==> (self.selected matches Some(i) && i < self.filtered_indices@.len()
                && self.filtered_indices@[i as int] < self.events@.len()),
            r matches Some(e) ==> *e == self.events@[self.filtered_indices@[self.selected->0 as int] as int],
    {
        match self.selected {
            Some(i) => if i < self.filtered_indices.len() {
                let idx = self.filtered_indices[i];
                if idx < self.events.len() {
                    Some(&self.events[idx])
                } else {
                    None
                }
            } else {
                None
            },
            None => None,
        }
    }

    /// Moves the selection one event down, stopping at the last.
    pub fn next(&mut self)
        requires
            old(self).wf(),
        ensures
            final(self).wf(),
            final(self).selected == step_down(old(self).selected, old(self).filtered_indices@.len() as int),
            final(self).detail_scroll == 0,
            final(self).filtered_indices == old(self).filtered_indices,
            final(self).same_data(*old(self)),
            final(self).same_filters(*old(self)),
            final(self).search_input == old(self).search_input,
            final(self).time_input == old(self).time_input,
            final(self).same_picker(*old(self)),
            final(self).same_status(*old(self)),
    {
        self.selected = select_next(self.selected, self.filtered_indices.len());
        self.detail_scroll = 0;
    }

    /// Moves the selection one event up, stopping at the first.
    pub fn previous(&mut self)
        requires
            old(self).wf(),
        ensures
            final(self).wf(),
            final(self).selected == step_up(old(self).selected, old(self).filtered_indices@.len() as int),
            final(self).detail_scroll == 0,
            final(self).filtered_indices == old(self).filtered_indices,
            final(self).same_data(*old(self)),
            final(self).same_filters(*old(self)),
            final(self).search_input == old(self).search_input,
            final(self).time_input == old(self).time_input,
            final(self).same_picker(*old(self)),
            final(self).same_status(*old(self)),
    {
        self.selected = select_previous(self.selected, self.filtered_indices.len());
        self.detail_scroll = 0;
    }

    /// Scrolls the detail view down, saturating.
    pub fn scroll_detail_down(&mut self, amount: u16)
        ensures
            final(self).detail_scroll == old(self).detail_scroll.saturating_add(amount),
            final(self).filtered_indices == old(self).filtered_indices,
            final(self).selected == old(self).selected,
            final(self).same_data(*old(self)),
            final(self).same_filters(*old(self)),
            final(self).search_input == old(self).search_input,
            final(self).time_input == old(self).time_input,
            final(self).same_picker(*old(self)),
            final(self).same_status(*old(self)),
    {
        self.detail_scroll = self.detail_scroll.saturating_add(amount);
    }

    /// Scrolls the detail view up, stopping at the top.
    pub fn scroll_detail_up(&mut self, amount: u16)
        ensures
            final(self).detail_scroll == old(self).detail_scroll.saturating_sub(amount),
            final(self).filtered_indices == old(self).filtered_indices,
            final(self).selected == old(self).selected,
            final(self).same_data(*old(self)),
            final(self).same_filters(*old(self)),
            final(self).search_input == old(self).search_input,
            final(self).time_input == old(self).time_input,
            final(self).same_picker(*old(self)),
            final(self).same_status(*old(self)),
    {
        self.detail_scroll = self.detail_scroll.saturating_sub(amount);
    }

    /// Shows a notice.
    pub fn set_flash(&mut self, msg: String)
        ensures
            final(self).flash == Some(Notice::Message(msg)),
            final(self).error == old(self).error,
            final(self).mode == old(self).mode,
            final(self).same_data(*old(self)),
            final(self).same_filters(*old(self)),
            final(self).same_list(*old(self)),
            final(self).same_picker(*old(self)),
            final(self).search_input == old(self).search_input,
            final(self).time_input == old(self).time_input,
            final(self).should_quit == old(self).should_quit,
            final(self).action_type_selected == old(self).action_type_selected,
    {
        self.flash = Some(Notice::Message(msg));
    }

    /// Shows an error.
    pub fn set_error(&mut self, msg: String)
        ensures
            final(self).error == Some(msg),
            final(self).flash == old(self).flash,
            final(self).mode == old(self).mode,
            final(self).same_data(*old(self)),
            final(self).same_filters(*old(self)),
            final(self).same_list(*old(self)),
            final(self).same_picker(*old(self)),
            final(self).search_input == old(self).search_input,
            final(self).time_input == old(self).time_input,
            final(self).should_quit == old(self).should_quit,
            final(self).action_type_selected == old(self).action_type_selected,
    {
        self.error = Some(msg);
    }

    /// Dismisses the error.
    pub fn clear_error(&mut self)
        ensures
            final(self).error is None,
            final(self).flash == old(self).flash,
            final(self).mode == old(self).mode,
            final(self).same_data(*old(self)),
            final(self).same_filters(*old(self)),
            final(self).same_list(*old(self)),
            final(self).same_picker(*old(self)),
            final(self).search_input == old(self).search_input,
            final(self).time_input == old(self).time_input,
            final(self).should_quit == old(self).should_quit,
            final(self).action_type_selected == old(self).action_type_selected,
    {
        self.error = None;
    }

    /// Enters search mode with the current search as the text to edit.
    pub fn start_search(&mut self)
        requires
            old(self).wf(),
        ensures
            final(self).wf(),
            final(self).mode == Mode::SearchInput,
            final(self).search_input@ == old(self).search@,
            final(self).same_data(*old(self)),
            final(self).same_filters(*old(self)),
            final(self).same_list(*old(self)),
            final(self).same_picker(*old(self)),
            final(self).time_input == old(self).time_input,
            final(self).flash == old(self).flash,
            final(self).error == old(self).error,
            final(self).should_quit == old(self).should_quit,
            final(self).action_type_selected == old(self).action_type_selected,
    {
        self.mode = Mode::SearchInput;
        self.search_input = self.search.clone();
    }

    /// Takes the typed text, trimmed, as the search; refreshes the view and
    /// returns to normal mode with a notice of the outcome.
    pub fn commit_search(&mut self)
        requires
            old(self).wf(),
        ensures
            final(self).wf(),
            final(self).search@ == trim(old(self).search_input@),
            final(self).search_input@.len() == 0,
            final(self).refreshed(),
            final(self).mode == Mode::Normal,
            final(self).flash == Some(
                search_notice(
                    final(self).search,
                    final(self).action_type_filter,
                    final(self).filtered_indices@.len() as int,
                ),
            ),
            final(self).same_data(*old(self)),
            final(self).action_type_filter == old(self).action_type_filter,
            final(self).time_range_start == old(self).time_range_start,
            final(self).time_range_end == old(self).time_range_end,
            final(self).time_input == old(self).time_input,
            final(self).same_picker(*old(self)),
            final(self).error == old(self).error,
            final(self).should_quit == old(self).should_quit,
            final(self).action_type_selected == old(self).action_type_selected,
    {
        let typed = self.search_input.clone();
        self.search = String::from_str(trim_str(typed.as_str(), Trim::Space));
        self.search_input = String::new();
        self.apply_filters();
        self.mode = Mode::Normal;
        let n = self.filtered_indices.len();
        let notice = if n == 0 && self.search.as_str().unicode_len() > 0 {
            Notice::NoResultsFor(self.search.clone())
        } else if n == 0 && self.action_type_filter.is_some() {
            Notice::NoMatches
        } else {
            Notice::SearchResults(self.search.clone(), n)
        };
        self.flash = Some(notice);
    }

    /// Leaves search mode, keeping the current search.
    pub fn cancel_search(&mut self)
        requires
            old(self).wf(),
        ensures
            final(self).wf(),
            final(self).search_input@.len() == 0,
            final(self).mode == Mode::Normal,
            final(self).same_data(*old(self)),
            final(self).same_filters(*old(self)),
            final(self).same_list(*old(self)),
            final(self).same_picker(*old(self)),
            final(self).time_input == old(self).time_input,
            final(self).flash == old(self).flash,
            final(self).error == old(self).error,
            final(self).should_quit == old(self).should_quit,
            final(self).action_type_selected == old(self).action_type_selected,
    {
        self.search_input = String::new();
        self.mode = Mode::Normal;
    }

    /// Appends a character to the search being typed.
    pub fn push_search_char(&mut self, c: char)
        requires
            old(self).wf(),
        ensures
            final(self).wf(),
            final(self).search_input@ == old(self).search_input@.push(c),
            final(self).same_status(*old(self)),
            final(self).same_data(*old(self)),
            final(self).same_filters(*old(self)),
            final(self).same_list(*old(self)),
            final(self).same_picker(*old(self)),
            final(self).time_input == old(self).time_input,
    {
        push_char(&mut self.search_input, c);
    }

    /// Removes the last character of the search being typed, if any.
    pub fn pop_search_char(&mut self)
        requires
            old(self).wf(),
        ensures
            final(self).wf(),
            old(self).search_input@.len() > 0 ==> final(self).search_input@
                == old(self).search_input@.drop_last(),
            old(self).search_input@.len() == 0 ==> final(self).search_input@
                == old(self).search_input@,
            final(self).same_status(*old(self)),
            final(self).same_data(*old(self)),
            final(self).same_filters(*old(self)),
            final(self).same_list(*old(self)),
            final(self).same_picker(*old(self)),
            final(self).time_input == old(self).time_input,
    {
        pop_char(&mut self.search_input);
    }

    /// Enters the category picker, selecting the active category if there is one.
    pub fn start_action_type_filter(&mut self)
        requires
            old(self).wf(),
        ensures
            final(self).wf(),
            final(self).mode == Mode::ActionTypeFilter,
            final(self).action_type_selected == (if old(self).action_types@.len() == 0 {
                None
            } else {
                match old(self).action_type_filter {
                    Some(f) => Some(text_position(texts(old(self).action_types@), f@, 0) as usize),
                    None => Some(0usize),
                }
            }),
            final(self).same_data(*old(self)),
            final(self).same_filters(*old(self)),
            final(self).same_list(*old(self)),
            final(self).same_picker(*old(self)),
            final(self).search_input == old(self).search_input,
            final(self).time_input == old(self).time_input,
            final(self).flash == old(self).flash,
            final(self).error == old(self).error,
            final(self).should_quit == old(self).should_quit,
    {
        self.mode = Mode::ActionTypeFilter;
        if self.action_types.len() == 0 {
            self.action_type_selected = None;
            return;
        }
        let idx = match &self.action_type_filter {
            Some(f) => self.position_of_action_type(f),
            None => 0,
        };
        self.action_type_selected = Some(idx);
    }

    fn position_of_action_type(&self, f: &String) -> (r: usize)
        ensures
            r == text_position(texts(self.action_types@), f@, 0),
            self.action_types@.len() > 0 ==> r < self.action_types@.len(),
    {
        let ghost s = texts(self.action_types@);
        let mut i: usize = 0;
        while i < self.action_types.len()
            invariant
                i <= self.action_types@.len(),
                s == texts(self.action_types@),
                text_position(s, f@, 0) == text_position(s, f@, i as int),
            decreases self.action_types@.len() - i,
        {
            if same_text(self.action_types[i].as_str(), f.as_str()) {
                return i;
            }
            i += 1;
        }
        0
    }

    /// Sets the category filter to the selected action type, refreshes the
    /// view, and returns to normal mode.
    pub fn commit_action_type_filter(&mut self)
        requires
            old(self).wf(),
        ensures
            final(self).wf(),
            final(self).mode == Mode::Normal,
            match old(self).action_type_selected {
                Some(i) if i < old(self).action_types@.len() => {
                    &&& final(self).action_type_filter == Some(old(self).action_types@[i as int])
                    &&& final(self).refreshed()
                    &&& final(self).flash == Some(
                        Notice::FilterSet(
                            old(self).action_types@[i as int],
                            final(self).filtered_indices@.len() as usize,
                        ),
                    )
                },
                _ => {
                    &&& final(self).action_type_filter == old(self).action_type_filter
                    &&& final(self).same_list(*old(self))
                    &&& final(self).flash == old(self).flash
                },
            },
            final(self).same_data(*old(self)),
            final(self).search == old(self).search,
            final(self).time_range_start == old(self).time_range_start,
            final(self).time_range_end == old(self).time_range_end,
            final(self).same_picker(*old(self)),
            final(self).search_input == old(self).search_input,
            final(self).time_input == old(self).time_input,
            final(self).error == old(self).error,
            final(self).should_quit == old(self).should_quit,
            final(self).action_type_selected == old(self).action_type_selected,
    {
        let chosen = match self.action_type_selected {
            Some(i) => if i < self.action_types.len() {
                Some(self.action_types[i].clone())
            } else {
                None
            },
            None => None,
        };
        if let Some(at) = chosen {
            self.action_type_filter = Some(at.clone());
            self.apply_filters();
            let n = self.filtered_indices.len();
            self.flash = Some(Notice::FilterSet(at, n));
        }
        self.mode = Mode::Normal;
    }

    /// Clears the category filter, refreshes the view, and returns to normal mode.
    pub fn clear_action_type_filter(&mut self)
        requires
            old(self).wf(),
        ensures
            final(self).wf(),
            final(self).action_type_filter is None,
            final(self).refreshed(),
            final(self).mode == Mode::Normal,
            final(self).flash == Some(Notice::FilterCleared),
            final(self).same_data(*old(self)),
            final(self).search == old(self).search,
            final(self).time_range_start == old(self).time_range_start,
            final(self).time_range_end == old(self).time_range_end,
            final(self).same_picker(*old(self)),
            final(self).search_input == old(self).search_input,
            final(self).time_input == old(self).time_input,
            final(self).error == old(self).error,
            final(self).should_quit == old(self).should_quit,
            final(self).action_type_selected == old(self).action_type_selected,
    {
        self.action_type_filter = None;
        self.apply_filters();
        self.mode = Mode::Normal;
        self.flash = Some(Notice::FilterCleared);
    }

    /// Clears whichever of search, category filter and time range is set;
    /// when any was, refreshes the view and says what was cleared.
    pub fn clear_search_and_filter_in_normal(&mut self)
        requires
            old(self).wf(),
        ensures
            final(self).wf(),
            final(self).search@.len() == 0,
            final(self).action_type_filter is None,
            final(self).time_range_start is None,
            final(self).time_range_end is None,
            ({
                let had_search = old(self).search@.len() > 0;
                let had_filter = old(self).action_type_filter is Some;
                let had_time = old(self).time_range_start is Some || old(self).time_range_end is Some;
                if had_search || had_filter || had_time {
                    &&& final(self).refreshed()
                    &&& final(self).flash == Some(
                        Notice::Cleared { search: had_search, filter: had_filter, time: had_time },
                    )
                } else {
                    &&& final(self).same_list(*old(self))
                    &&& final(self).flash == old(self).flash
                }
            }),
            final(self).mode == old(self).mode,
            final(self).same_data(*old(self)),
            final(self).same_picker(*old(self)),
            final(self).search_input == old(self).search_input,
            final(self).time_input == old(self).time_input,
            final(self).error == old(self).error,
            final(self).should_quit == old(self).should_quit,
            final(self).action_type_selected == old(self).action_type_selected,
    {
        let had_search = self.search.as_str().unicode_len() > 0;
        let had_filter = self.action_type_filter.is_some();
        let had_time = self.time_range_start.is_some() || self.time_range_end.is_some();
        if had_search {
            self.search = String::new();
        }
        if had_filter {
            self.action_type_filter = None;
        }
        if had_time {
            self.time_range_start = None;
            self.time_range_end = None;
        }
        if had_search || had_filter || had_time {
            self.apply_filters();
            self.flash = Some(Notice::Cleared { search: had_search, filter: had_filter, time: had_time });
        }
    }

    /// Moves the category selection one down, stopping at the last.
    pub fn action_type_next(&mut self)
        requires
            old(self).wf(),
        ensures
            final(self).wf(),
            final(self).action_type_selected == step_down(
                old(self).action_type_selected,
                old(self).action_types@.len() as int,
            ),
            final(self).mode == old(self).mode,
            final(self).flash == old(self).flash,
            final(self).same_data(*old(self)),
            final(self).same_filters(*old(self)),
            final(self).same_list(*old(self)),
            final(self).same_picker(*old(self)),
            final(self).search_input == old(self).search_input,
            final(self).time_input == old(self).time_input,
            final(self).error == old(self).error,
            final(self).should_quit == old(self).should_quit,
    {
        self.action_type_selected = select_next(self.action_type_selected, self.action_types.len());
    }

    /// Moves the category selection one up, stopping at the first.
    pub fn action_type_previous(&mut self)
        requires
            old(self).wf(),
        ensures
            final(self).wf(),
            final(self).action_type_selected == step_up(
                old(self).action_type_selected,
                old(self).action_types@.len() as int,
            ),
            final(self).mode == old(self).mode,
            final(self).flash == old(self).flash,
            final(self).same_data(*old(self)),
            final(self).same_filters(*old(self)),
            final(self).same_list(*old(self)),
            final(self).same_picker(*old(self)),
            final(self).search_input == old(self).search_input,
            final(self).time_input == old(self).time_input,
            final(self).error == old(self).error,
            final(self).should_quit == old(self).should_quit,
    {
        self.action_type_selected = select_previous(self.action_type_selected, self.action_types.len());
    }
}

/// Refreshing the view is idempotent: with the data and the filters
/// unchanged, refreshing again (even after the selection or the scroll moved)
/// lists the same events and puts the selection and the scroll back where the
/// first refresh put them.
pub proof fn lemma_refresh_idempotent(a0: App, a1: App, b: App, a2: App)
    requires
        a0.filters_applied(a1),
        b.same_data(a1),
        b.same_filters(a1),
        b.filters_applied(a2),
    ensures
        a2.filtered_indices@ == a1.filtered_indices@,
        a2.selected == a1.selected,
        a2.detail_scroll == a1.detail_scroll,
{
}

} // verus!
