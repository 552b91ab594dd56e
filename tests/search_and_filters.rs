use rusty_lens::filters::{filter_events, unique_action_types, unique_dates_from_events, unique_hours_for_date};
use rusty_lens::time::parse_time;
use rusty_lens::timeline::{matches_lowered, TimelineEvent};

fn event(action: &str, time: &str) -> TimelineEvent {
    TimelineEvent {
        action_type: Some(action.to_string()),
        event_time: Some(time.to_string()),
        ..Default::default()
    }
}

#[test]
fn category_filter_keeps_load_order() {
    let events = vec![
        event("ProcessCreated", "2024-01-01 10:00:00"),
        event("ConnectionSuccess", "2024-01-01 11:00:00"),
        event("ProcessCreated", "2024-01-01 12:00:00"),
    ];
    let kept = filter_events(&events, Some("ProcessCreated"), "");
    assert_eq!(kept.len(), 2);
    assert_eq!(kept[0].event_time.as_deref(), Some("2024-01-01 10:00:00"));
    assert_eq!(kept[1].event_time.as_deref(), Some("2024-01-01 12:00:00"));
}

#[test]
fn category_filter_is_trimmed_and_blank_means_none() {
    let events = vec![event("ProcessCreated", "x"), event("ConnectionSuccess", "y")];
    assert_eq!(filter_events(&events, Some("  ProcessCreated "), "").len(), 1);
    assert_eq!(filter_events(&events, Some("   "), "").len(), 2);
    assert_eq!(filter_events(&events, None, "").len(), 2);
    assert_eq!(filter_events(&events, Some("processcreated"), "").len(), 0);
}

#[test]
fn search_needs_every_word_in_any_field_and_order() {
    let mut a = TimelineEvent::default();
    a.process_command_line = Some("PowerShell.exe -Enc SQBFAFgA".to_string());
    let mut b = TimelineEvent::default();
    b.process_command_line = Some("powershell.exe -NoProfile".to_string());
    let mut c = TimelineEvent::default();
    c.file_name = Some("-enc".to_string());
    c.folder_path = Some("C:\\Windows\\PowerShell".to_string());
    assert!(a.matches_search("powershell -enc"));
    assert!(!b.matches_search("powershell -enc"));
    assert!(c.matches_search("powershell -enc"));
    assert!(a.matches_search("-enc   POWERSHELL"));
}

#[test]
fn blank_search_matches_everything() {
    let e = TimelineEvent::default();
    assert!(e.matches_search(""));
    assert!(e.matches_search("   \t "));
    assert!(!e.matches_search("x"));
}

#[test]
fn search_text_is_lowercase_with_spaces() {
    let mut e = TimelineEvent::default();
    e.computer_name = Some("HOST-A".to_string());
    e.action_type = Some("FileCreated".to_string());
    assert_eq!(e.searchable_text(), "host-a filecreated ");
    e.logon_id = Some("ZZZ".to_string());
    assert_eq!(e.searchable_text(), "host-a filecreated ");
    assert!(!e.matches_search("zzz"));
}

#[test]
fn lowered_matching_on_given_text() {
    assert!(matches_lowered("power enc", "xx powershell -enc yy"));
    assert!(!matches_lowered("power enc", "xx powershell yy"));
    assert!(matches_lowered("", "anything"));
    assert!(!matches_lowered("POWER", "powershell"));
}

#[test]
fn pipeline_keeps_only_events_passing_both() {
    let mut a = event("ProcessCreated", "2024-01-01 10:00:00");
    a.file_name = Some("cmd.exe".to_string());
    let mut b = event("ProcessCreated", "2024-01-01 10:00:00");
    b.file_name = Some("notepad.exe".to_string());
    let events = vec![a, b];
    let kept = filter_events(&events, Some("ProcessCreated"), "CMD");
    assert_eq!(kept.len(), 1);
    assert_eq!(kept[0].file_name.as_deref(), Some("cmd.exe"));
}

#[test]
fn action_types_sorted_and_distinct() {
    let mut events = vec![
        event("ProcessCreated", ""),
        event("ConnectionSuccess", ""),
        event("ProcessCreated", ""),
        event("", ""),
        event("AlertEvidence", ""),
    ];
    events.push(TimelineEvent::default());
    assert_eq!(
        unique_action_types(&events),
        vec!["AlertEvidence".to_string(), "ConnectionSuccess".to_string(), "ProcessCreated".to_string()]
    );
}

#[test]
fn dates_and_hours_from_data() {
    let events = vec![
        event("a", "2024-03-02 15:10:00"),
        event("b", "2024-03-01 09:00:00"),
        event("c", "2024-03-02 08:59:59"),
        event("d", "not a time"),
        event("e", "2024-03-02 15:40:00"),
    ];
    let day1 = parse_time("2024-03-01").unwrap().day;
    let day2 = parse_time("2024-03-02").unwrap().day;
    assert_eq!(day2, day1 + 1);
    assert_eq!(unique_dates_from_events(&events), vec![day1, day2]);
    assert_eq!(unique_hours_for_date(&events, day2), vec![8, 15]);
    assert_eq!(unique_hours_for_date(&events, day1), vec![9]);
    assert!(unique_hours_for_date(&events, day1 + 5).is_empty());
    assert!(unique_dates_from_events(&[]).is_empty());
}
