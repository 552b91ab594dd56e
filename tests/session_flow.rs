use rusty_lens::picker::{time_preset_label, time_presets, PICK_DATES, TIME_PRESET_COUNT, TYPE_RANGE};
use rusty_lens::session::{App, Mode, Notice, TimeFilterSub};
use rusty_lens::time::{parse_time, Timestamp};
use rusty_lens::timeline::TimelineEvent;

fn event(action: &str, time: &str) -> TimelineEvent {
    TimelineEvent {
        action_type: Some(action.to_string()),
        event_time: Some(time.to_string()),
        ..Default::default()
    }
}

fn t(s: &str) -> Timestamp {
    parse_time(s).unwrap()
}

fn sample() -> App {
    App::new(vec![
        event("ProcessCreated", "2024-03-01 09:15:00"),
        event("ConnectionSuccess", "2024-03-01 14:00:00"),
        event("ProcessCreated", "2024-03-02 08:30:00"),
        event("FileCreated", "2024-03-02 17:45:00"),
        event("ProcessCreated", "2024-03-03 10:00:00"),
    ])
}

#[test]
fn new_session_lists_everything() {
    let app = sample();
    assert_eq!(app.filtered_indices, vec![0, 1, 2, 3, 4]);
    assert_eq!(app.selected, Some(0));
    assert_eq!(app.mode, Mode::Normal);
    assert_eq!(app.unique_dates.len(), 3);
    assert_eq!(app.action_types, vec!["ConnectionSuccess", "FileCreated", "ProcessCreated"]);
    let empty = App::new(Vec::new());
    assert_eq!(empty.selected, None);
    assert!(empty.selected_event().is_none());
}

#[test]
fn refreshing_twice_gives_the_same_view() {
    let mut app = sample();
    app.action_type_filter = Some("ProcessCreated".to_string());
    app.apply_filters();
    let first = app.filtered_indices.clone();
    assert_eq!(first, vec![0, 2, 4]);
    app.next();
    app.scroll_detail_down(7);
    assert_eq!(app.selected, Some(1));
    app.apply_filters();
    assert_eq!(app.filtered_indices, first);
    assert_eq!(app.selected, Some(0));
    assert_eq!(app.detail_scroll, 0);
}

#[test]
fn selection_clamps_at_both_ends() {
    let mut app = sample();
    for _ in 0..10 {
        app.next();
    }
    assert_eq!(app.selected, Some(4));
    assert_eq!(app.selected_event().unwrap().event_time.as_deref(), Some("2024-03-03 10:00:00"));
    for _ in 0..10 {
        app.previous();
    }
    assert_eq!(app.selected, Some(0));
    app.scroll_detail_up(3);
    assert_eq!(app.detail_scroll, 0);
    app.scroll_detail_down(u16::MAX);
    app.scroll_detail_down(5);
    assert_eq!(app.detail_scroll, u16::MAX);
}

#[test]
fn empty_result_clears_selection() {
    let mut app = sample();
    app.start_search();
    for c in "no such thing".chars() {
        app.push_search_char(c);
    }
    app.commit_search();
    assert!(app.filtered_indices.is_empty());
    assert_eq!(app.selected, None);
    assert!(matches!(app.flash, Some(Notice::NoResultsFor(ref s)) if s == "no such thing"));
    assert_eq!(app.mode, Mode::Normal);
}

#[test]
fn search_commit_trims_and_counts() {
    let mut app = sample();
    app.start_search();
    for c in "  connection  x".chars() {
        app.push_search_char(c);
    }
    app.pop_search_char();
    app.pop_search_char();
    app.commit_search();
    assert_eq!(app.search, "connection");
    assert_eq!(app.filtered_indices, vec![1]);
    assert!(matches!(app.flash, Some(Notice::SearchResults(ref s, 1)) if s == "connection"));
}

#[test]
fn category_picker_selects_current_filter() {
    let mut app = sample();
    app.start_action_type_filter();
    assert_eq!(app.action_type_selected, Some(0));
    app.action_type_next();
    app.action_type_next();
    app.action_type_next();
    assert_eq!(app.action_type_selected, Some(2));
    app.commit_action_type_filter();
    assert_eq!(app.action_type_filter.as_deref(), Some("ProcessCreated"));
    assert_eq!(app.filtered_indices, vec![0, 2, 4]);
    assert!(matches!(app.flash, Some(Notice::FilterSet(ref s, 3)) if s == "ProcessCreated"));
    app.start_action_type_filter();
    assert_eq!(app.action_type_selected, Some(2));
    app.clear_action_type_filter();
    assert_eq!(app.action_type_filter, None);
    assert_eq!(app.filtered_indices.len(), 5);
}

#[test]
fn clearing_in_normal_mode_reports_what_was_cleared() {
    let mut app = sample();
    app.search = "process".to_string();
    app.time_range_start = Some(t("2024-03-02"));
    app.apply_filters();
    assert_eq!(app.filtered_indices, vec![2, 4]);
    app.clear_search_and_filter_in_normal();
    assert_eq!(app.filtered_indices.len(), 5);
    assert!(matches!(app.flash, Some(Notice::Cleared { search: true, filter: false, time: true })));
    app.flash = None;
    app.clear_search_and_filter_in_normal();
    assert!(app.flash.is_none());
}

#[test]
fn presets_are_listed_in_order() {
    let labels = time_presets();
    assert_eq!(labels.len(), TIME_PRESET_COUNT);
    assert_eq!(labels[0], "Today");
    assert_eq!(time_preset_label(PICK_DATES), "Custom (pick dates from data)");
    assert_eq!(time_preset_label(TYPE_RANGE), "Custom (type range)...");
}

#[test]
fn preset_applies_relative_range() {
    let mut app = sample();
    app.start_time_filter();
    app.time_picker_next();
    app.time_picker_next();
    app.time_picker_next();
    assert_eq!(app.time_picker_selected, Some(3));
    let now = t("2024-03-03 12:00:00");
    app.apply_time_picker_selection_at(now);
    assert_eq!(app.time_range_start, Some(t("2024-02-25 00:00:00")));
    assert_eq!(app.time_range_end, Some(now));
    assert_eq!(app.filtered_indices.len(), 5);
    assert_eq!(app.mode, Mode::Normal);
    assert_eq!(app.time_filter_sub, TimeFilterSub::Picker);
    app.start_time_filter();
    app.apply_time_picker_selection_at(t("2024-03-02 12:00:00"));
    assert_eq!(app.filtered_indices, vec![2, 3]);
    assert!(matches!(app.flash, Some(Notice::Range(_, _, 2))));
}

#[test]
fn single_date_skips_start_date_step() {
    let mut app = App::new(vec![
        event("a", "2024-03-05 09:10:00"),
        event("b", "2024-03-05 13:00:00"),
        event("c", "2024-03-05 09:50:00"),
    ]);
    app.start_time_filter();
    app.time_picker_selected = Some(PICK_DATES);
    app.apply_time_picker_selection_at(t("2024-03-06 00:00:00"));
    let d = t("2024-03-05").day;
    assert_eq!(app.time_filter_sub, TimeFilterSub::CustomRangeStartHour(d));
    assert_eq!(app.date_picker_hours, vec![9, 13]);
    assert_eq!(app.date_picker_selected, Some(0));
    app.date_picker_next();
    app.apply_date_range_start_hour();
    assert_eq!(app.time_filter_sub, TimeFilterSub::CustomRangeEndHour(t("2024-03-05 13:00:00"), d));
    assert_eq!(app.date_picker_hours, vec![13]);
    app.apply_date_range_end_hour();
    assert_eq!(app.time_range_start, Some(t("2024-03-05 13:00:00")));
    assert_eq!(app.time_range_end, Some(t("2024-03-05 13:59:59")));
    assert_eq!(app.filtered_indices, vec![1]);
    assert_eq!(app.time_filter_sub, TimeFilterSub::Picker);
    assert_eq!(app.mode, Mode::Normal);
}

#[test]
fn no_dates_gives_a_notice_and_stays() {
    let mut app = App::new(vec![event("a", "unknown")]);
    app.start_time_filter();
    app.time_picker_selected = Some(PICK_DATES);
    app.apply_time_picker_selection_at(t("2024-03-06 00:00:00"));
    assert_eq!(app.time_filter_sub, TimeFilterSub::Picker);
    assert!(matches!(app.flash, Some(Notice::NoDates)));
    assert_eq!(app.mode, Mode::TimeFilter);
}

#[test]
fn full_chain_and_back() {
    let mut app = sample();
    let d1 = t("2024-03-01").day;
    let d2 = t("2024-03-02").day;
    let d3 = t("2024-03-03").day;
    app.start_time_filter();
    app.time_picker_selected = Some(PICK_DATES);
    app.apply_time_picker_selection_at(t("2024-03-06 00:00:00"));
    assert_eq!(app.time_filter_sub, TimeFilterSub::CustomRangeStart);
    assert_eq!(app.date_picker_selected, Some(0));
    app.apply_date_range_start();
    assert_eq!(app.time_filter_sub, TimeFilterSub::CustomRangeStartHour(d1));
    let hours_at_entry = app.date_picker_hours.clone();
    assert_eq!(hours_at_entry, vec![9, 14]);
    app.date_picker_next();
    app.apply_date_range_start_hour();
    let start = t("2024-03-01 14:00:00");
    assert_eq!(app.time_filter_sub, TimeFilterSub::CustomRangeEnd(start));
    assert_eq!(app.date_picker_end_dates, vec![d1, d2, d3]);
    let ends_at_entry = app.date_picker_end_dates.clone();
    app.date_picker_next();
    app.date_picker_next();
    app.apply_date_range_end();
    assert_eq!(app.time_filter_sub, TimeFilterSub::CustomRangeEndHour(start, d3));
    assert_eq!(app.date_picker_hours, vec![10]);

    app.cancel_time_filter();
    assert_eq!(app.time_filter_sub, TimeFilterSub::CustomRangeEnd(start));
    assert_eq!(app.date_picker_end_dates, ends_at_entry);
    assert_eq!(app.date_picker_selected, Some(0));
    app.cancel_time_filter();
    assert_eq!(app.time_filter_sub, TimeFilterSub::CustomRangeStartHour(d1));
    assert_eq!(app.date_picker_hours, hours_at_entry);
    assert_eq!(app.date_picker_selected, Some(1));
    app.cancel_time_filter();
    assert_eq!(app.time_filter_sub, TimeFilterSub::CustomRangeStart);
    assert_eq!(app.date_picker_selected, Some(0));
    app.cancel_time_filter();
    assert_eq!(app.time_filter_sub, TimeFilterSub::Picker);
    assert_eq!(app.time_picker_selected, Some(0));
    app.cancel_time_filter();
    assert_eq!(app.mode, Mode::Normal);
    assert_eq!(app.time_range_start, None);
    assert_eq!(app.time_range_end, None);
}

#[test]
fn end_hours_on_start_date_begin_at_start_hour() {
    let mut app = sample();
    let d1 = t("2024-03-01").day;
    app.start_time_filter();
    app.time_picker_selected = Some(PICK_DATES);
    app.apply_time_picker_selection_at(t("2024-03-06 00:00:00"));
    app.apply_date_range_start();
    app.date_picker_next();
    app.apply_date_range_start_hour();
    app.apply_date_range_end();
    let start = t("2024-03-01 14:00:00");
    assert_eq!(app.time_filter_sub, TimeFilterSub::CustomRangeEndHour(start, d1));
    assert_eq!(app.date_picker_hours, vec![14]);
    app.apply_date_range_end_hour();
    assert_eq!(app.filtered_indices, vec![1]);
}

#[test]
fn typed_range_prefill_and_commit() {
    let mut app = sample();
    app.time_range_start = Some(t("2024-03-01 09:05:30"));
    app.time_range_end = Some(t("2024-03-02 23:59:59"));
    app.start_time_filter();
    app.time_picker_selected = Some(TYPE_RANGE);
    app.apply_time_picker_selection_at(t("2024-03-06 00:00:00"));
    assert_eq!(app.time_filter_sub, TimeFilterSub::Custom);
    assert_eq!(app.time_input, "2024-03-01 09:05 to 2024-03-02 23:59");
    app.time_input.clear();
    for c in "after 2024-03-02".chars() {
        app.push_time_char(c);
    }
    app.commit_time_filter_at(t("2024-03-06 00:00:00"));
    assert_eq!(app.time_range_start, Some(t("2024-03-02 00:00:00")));
    assert_eq!(app.time_range_end, None);
    assert_eq!(app.filtered_indices, vec![2, 3, 4]);
    assert!(app.time_input.is_empty());
    assert_eq!(app.mode, Mode::Normal);
}

#[test]
fn typed_garbage_keeps_the_buffer() {
    let mut app = sample();
    app.start_time_filter();
    app.time_picker_selected = Some(TYPE_RANGE);
    app.apply_time_picker_selection_at(t("2024-03-06 00:00:00"));
    for c in "next tuesday".chars() {
        app.push_time_char(c);
    }
    app.pop_time_char();
    app.commit_time_filter_at(t("2024-03-06 00:00:00"));
    assert_eq!(app.time_input, "next tuesda");
    assert!(matches!(app.flash, Some(Notice::InvalidTime)));
    assert_eq!(app.time_filter_sub, TimeFilterSub::Custom);
    assert_eq!(app.mode, Mode::TimeFilter);
    app.cancel_time_filter();
    assert_eq!(app.time_filter_sub, TimeFilterSub::Picker);
    assert!(app.time_input.is_empty());
}

#[test]
fn typed_clear_removes_both_bounds() {
    let mut app = sample();
    app.time_range_start = Some(t("2024-03-02"));
    app.apply_time_picker_selection_at(t("2024-03-06 00:00:00"));
    app.time_input = "clear".to_string();
    app.commit_time_filter_at(t("2024-03-06 00:00:00"));
    assert_eq!(app.time_range_start, None);
    assert!(matches!(app.flash, Some(Notice::TimeCleared)));
    assert_eq!(app.filtered_indices.len(), 5);
}

#[test]
fn messages_and_errors() {
    let mut app = sample();
    app.set_flash("hello".to_string());
    assert!(matches!(app.flash, Some(Notice::Message(ref s)) if s == "hello"));
    app.set_error("bad".to_string());
    assert_eq!(app.error.as_deref(), Some("bad"));
    app.clear_error();
    assert_eq!(app.error, None);
    app.start_search();
    app.cancel_search();
    assert_eq!(app.mode, Mode::Normal);
}

#[test]
fn empty_search_with_category_that_matches_nothing() {
    let mut app = sample();
    app.action_type_filter = Some("NoSuchType".to_string());
    app.start_search();
    app.commit_search();
    assert!(app.filtered_indices.is_empty());
    assert_eq!(app.selected, None);
    assert!(matches!(app.flash, Some(Notice::NoMatches)));
}

#[test]
fn date_navigation_outside_date_steps_changes_nothing() {
    let mut app = sample();
    app.start_time_filter();
    app.date_picker_next();
    app.date_picker_previous();
    assert_eq!(app.date_picker_selected, None);
    app.time_picker_previous();
    assert_eq!(app.time_picker_selected, Some(0));
    for _ in 0..10 {
        app.time_picker_next();
    }
    assert_eq!(app.time_picker_selected, Some(TIME_PRESET_COUNT - 1));
}

#[test]
fn typed_after_keeps_the_time_of_day() {
    let mut app = sample();
    app.start_time_filter();
    app.time_picker_selected = Some(TYPE_RANGE);
    app.apply_time_picker_selection_at(t("2024-03-06 00:00:00"));
    for c in "after 2024-03-02T12:00:00".chars() {
        app.push_time_char(c);
    }
    app.commit_time_filter_at(t("2024-03-06 00:00:00"));
    assert_eq!(app.time_range_start, Some(t("2024-03-02 12:00:00")));
    assert_eq!(app.time_range_end, None);
    assert_eq!(app.filtered_indices, vec![3, 4]);
    assert_eq!(app.mode, Mode::Normal);
    assert!(app.time_input.is_empty());
}
