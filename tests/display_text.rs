use rusty_lens::display::{detail_content, mode_label, truncate_for_display, wrap_at_width};
use rusty_lens::session::Mode;
use rusty_lens::timeline::TimelineEvent;

#[test]
fn wraps_greedily_at_width() {
    assert_eq!(wrap_at_width("aa bb cc", 5), vec!["aa bb", "cc"]);
    assert_eq!(wrap_at_width("aa   bb\tcc", 8), vec!["aa bb cc"]);
    assert_eq!(wrap_at_width("abcdefgh ij", 3), vec!["abc", "def", "gh", "ij"]);
    assert_eq!(wrap_at_width("abcdefgh ij", 3).len(), 4);
    assert_eq!(wrap_at_width("x abcdefg", 4), vec!["x", "abcd", "efg"]);
}

#[test]
fn wrap_edge_cases() {
    assert_eq!(wrap_at_width("keep  as is", 0), vec!["keep  as is"]);
    assert_eq!(wrap_at_width("", 10), vec![""]);
    assert_eq!(wrap_at_width("   ", 10), vec!["   "]);
    assert_eq!(wrap_at_width("\u{e9}\u{e9} x", 4), vec!["\u{e9}\u{e9}", "x"]);
}

#[test]
fn truncates_by_display_columns() {
    assert_eq!(truncate_for_display("hello", 5), "hello");
    assert_eq!(truncate_for_display("hello world", 5), "hello\u{2026}");
    assert_eq!(truncate_for_display("\u{65e5}\u{672c}\u{8a9e}", 4), "\u{65e5}\u{672c}\u{2026}");
    assert_eq!(truncate_for_display("abc", 0), "\u{2026}");
    assert_eq!(truncate_for_display("", 0), "");
}

#[test]
fn detail_text_lists_fields_wrapped() {
    let mut e = TimelineEvent::default();
    e.computer_name = Some("host1".to_string());
    e.file_name = Some("\"a.exe\"".to_string());
    assert_eq!(detail_content(&e, 80), "Computer Name: host1\nFile Name: a.exe\n");
    assert_eq!(detail_content(&e, 12), "Computer\nName: host1\nFile Name:\na.exe\n");
    assert_eq!(detail_content(&TimelineEvent::default(), 80), "(no fields)");
}

#[test]
fn mode_labels() {
    assert_eq!(mode_label(Mode::Normal), " NORMAL ");
    assert_eq!(mode_label(Mode::SearchInput), " SEARCH ");
    assert_eq!(mode_label(Mode::ActionTypeFilter), " FILTER ");
    assert_eq!(mode_label(Mode::TimeFilter), " TIME ");
}
