use rusty_lens::time::parse_time;
use rusty_lens::timeline::TimelineEvent;

#[test]
fn detail_lines_trim_and_skip_empty() {
    let mut e = TimelineEvent::default();
    e.event_time = Some("\"2024-01-01 10:00:00\"".to_string());
    e.machine_id = Some("  \" \"  ".to_string());
    e.computer_name = Some(" host1 ".to_string());
    e.data_type = Some("\"  x  \"".to_string());
    let lines = e.detail_lines();
    assert_eq!(
        lines,
        vec![
            ("Event Time".to_string(), "2024-01-01 10:00:00".to_string()),
            ("Computer Name".to_string(), "host1".to_string()),
            ("Data Type".to_string(), "x".to_string()),
        ]
    );
    assert!(TimelineEvent::default().detail_lines().is_empty());
}

#[test]
fn list_line_prefers_file_then_process_then_host() {
    let mut e = TimelineEvent::default();
    e.event_time = Some("\"2024-01-01 10:00:00\"".to_string());
    e.action_type = Some("ProcessCreated".to_string());
    e.computer_name = Some("host1".to_string());
    assert_eq!(e.list_line(), "2024-01-01 10:00:00 | ProcessCreated | host1");
    e.initiating_process_file_name = Some("explorer.exe".to_string());
    assert_eq!(e.list_line(), "2024-01-01 10:00:00 | ProcessCreated | explorer.exe");
    e.file_name = Some("  ".to_string());
    assert_eq!(e.list_line(), "2024-01-01 10:00:00 | ProcessCreated | explorer.exe");
    e.file_name = Some("cmd.exe".to_string());
    assert_eq!(e.list_line(), "2024-01-01 10:00:00 | ProcessCreated | cmd.exe");
    let blank = TimelineEvent::default();
    assert_eq!(blank.list_line(), " | \u{2014} | ");
}

#[test]
fn time_range_is_inclusive_with_open_sides() {
    let mut e = TimelineEvent::default();
    e.event_time = Some("2024-01-01 10:00:00".to_string());
    let t = parse_time("2024-01-01 10:00:00");
    let before = parse_time("2024-01-01 09:00:00");
    let after = parse_time("2024-01-01 11:00:00");
    assert!(e.in_time_range(t, t));
    assert!(e.in_time_range(before, after));
    assert!(e.in_time_range(before, None));
    assert!(e.in_time_range(None, after));
    assert!(e.in_time_range(None, None));
    assert!(!e.in_time_range(after, None));
    assert!(!e.in_time_range(None, before));
    assert!(!e.in_time_range(after, before));
}

#[test]
fn unreadable_time_passes_only_without_bounds() {
    let mut e = TimelineEvent::default();
    e.event_time = Some("yesterday-ish".to_string());
    let t = parse_time("2024-01-01 10:00:00");
    assert!(e.event_time_parsed().is_none());
    assert!(e.in_time_range(None, None));
    assert!(!e.in_time_range(t, None));
    assert!(!e.in_time_range(None, t));
    assert!(!TimelineEvent::default().in_time_range(t, t));
    assert!(TimelineEvent::default().in_time_range(None, None));
}
