use runst::history::{History, HistoryEntry, DEFAULT_HISTORY_LIMIT};
use runst::notification::Urgency;

fn create_test_entry(id: u32, app_name: &str, summary: &str) -> HistoryEntry {
    HistoryEntry::new(
        id,
        app_name.to_string(),
        summary.to_string(),
        "body".to_string(),
        &Urgency::Normal,
        1234567890,
    )
}

#[test]
fn test_history_entry_creation() {
    let entry = create_test_entry(1, "test_app", "Test Summary");
    assert_eq!(entry.id, 1);
    assert_eq!(entry.app_name, "test_app");
    assert_eq!(entry.summary, "Test Summary");
    assert_eq!(entry.urgency, "normal");
}

#[test]
fn test_history_limit_enforcement() {
    let mut history = History::from_parts("history.json".to_string(), Vec::new(), 3);

    for i in 0..5 {
        history.add(create_test_entry(i, "app", &format!("summary {}", i)));
    }

    assert_eq!(history.len(), 3);
    // Should have entries 2, 3, 4 (oldest removed)
    let entries = history.all();
    assert_eq!(entries[0].id, 2);
    assert_eq!(entries[2].id, 4);
}

#[test]
fn test_history_search() {
    let mut history = History::from_parts("history.json".to_string(), Vec::new(), 100);

    history.add(create_test_entry(1, "firefox", "Download complete"));
    history.add(create_test_entry(2, "slack", "New message"));
    history.add(create_test_entry(3, "firefox", "Page loaded"));

    let results = history.search("firefox");
    assert_eq!(results.len(), 2);

    let results = history.search("message");
    assert_eq!(results.len(), 1);
    assert_eq!(results[0].app_name, "slack");
}

#[test]
fn test_history_recent() {
    let mut history = History::from_parts("history.json".to_string(), Vec::new(), 100);

    for i in 0..10 {
        history.add(create_test_entry(i, "app", &format!("summary {}", i)));
    }

    let recent = history.recent(3);
    assert_eq!(recent.len(), 3);
    assert_eq!(recent[0].id, 9); // Most recent first
    assert_eq!(recent[1].id, 8);
    assert_eq!(recent[2].id, 7);
}

#[test]
fn test_history_entry_datetime_formatting() {
    let entry = create_test_entry(1, "app", "summary");
    assert_eq!(entry.datetime, "2009-02-13 23:31:30 UTC");
}

#[test]
fn test_history_search_is_case_insensitive() {
    let mut history = History::new(100);
    history.add(create_test_entry(1, "Firefox", "Download Complete"));
    let results = history.search("FIREFOX");
    assert_eq!(results.len(), 1);
    let results = history.search("download");
    assert_eq!(results.len(), 1);
    let results = history.search("nothing");
    assert_eq!(results.len(), 0);
}

#[test]
fn test_history_clear_and_empty() {
    let mut history = History::new(10);
    assert!(history.is_empty());
    history.add(create_test_entry(1, "app", "summary"));
    assert!(!history.is_empty());
    assert_eq!(history.len(), 1);
    history.clear();
    assert!(history.is_empty());
    assert_eq!(history.len(), 0);
}

#[test]
fn test_history_path_is_kept() {
    let history = History::from_parts("some/where/history.json".to_string(), Vec::new(), 5);
    assert_eq!(history.path(), "some/where/history.json");
}

#[test]
fn test_history_select() {
    let mut history = History::new(DEFAULT_HISTORY_LIMIT);
    for i in 0..4 {
        history.add(create_test_entry(i, "app", &format!("summary {}", i)));
    }
    let all = history.select(&None, true, 2);
    assert_eq!(all.len(), 4);
    assert_eq!(all[0].id, 0);
    let recent = history.select(&None, false, 2);
    assert_eq!(recent.len(), 2);
    assert_eq!(recent[0].id, 3);
    let found = history.select(&Some("summary 2".to_string()), false, 2);
    assert_eq!(found.len(), 1);
    assert_eq!(found[0].id, 2);
}

#[test]
fn test_history_limit_zero_keeps_nothing() {
    let mut history = History::new(0);
    history.add(create_test_entry(1, "app", "summary"));
    assert_eq!(history.len(), 0);
}
