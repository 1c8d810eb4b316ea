use runst::config::NotificationRule;
use runst::notification::{Notification, NotificationFilter, Urgency};
use runst::pattern::glob_match;

fn mk(app: &str, summary: &str, body: &str) -> Notification {
    Notification {
        id: 1,
        app_name: app.to_string(),
        summary: summary.to_string(),
        body: body.to_string(),
        urgency: Urgency::Normal,
        timestamp: 0,
        expire_timeout: None,
    }
}

#[test]
fn test_glob_prefix_pattern() {
    assert!(glob_match("Nimbus*", "Nimbus Note"));
    assert!(glob_match("Nimbus*", "nimbus"));
    assert!(!glob_match("Nimbus*", "Note Nimbus x"));
}

#[test]
fn test_glob_contains_pattern() {
    assert!(glob_match("*bash*", "my-bash-script"));
    assert!(glob_match("*bash*", "bash"));
    assert!(!glob_match("*bash*", "my-shell-script"));
}

#[test]
fn test_glob_exact_pattern() {
    assert!(glob_match("exact", "exact"));
    assert!(glob_match("exact", "Exact"));
    assert!(!glob_match("exact", "exactly"));
    assert!(!glob_match("exact", "inexact"));
}

#[test]
fn test_glob_is_case_insensitive() {
    // Both sides are lowercased before matching.
    assert!(glob_match("EXACT", "exact"));
    assert!(glob_match("FIRE*", "firefox"));
    assert!(glob_match("*FOX", "FireFox"));
}

#[test]
fn test_glob_suffix_pattern() {
    assert!(glob_match("*.log", "build.log"));
    assert!(!glob_match("*.log", "build.txt"));
}

#[test]
fn test_glob_prefix_and_suffix() {
    assert!(glob_match("a*z", "abcz"));
    assert!(glob_match("a*z", "az"));
    assert!(!glob_match("a*z", "abc"));
}

#[test]
fn test_glob_many_segments_in_order() {
    assert!(glob_match("a*b*c", "a-x-b-y-c"));
    assert!(glob_match("*one*two*", "zone-is-two-fold"));
    assert!(!glob_match("a*b*c", "acb"));
}

#[test]
fn test_glob_lone_star_matches_everything() {
    assert!(glob_match("*", ""));
    assert!(glob_match("*", "anything"));
}

#[test]
fn test_rule_all_patterns_must_match() {
    let rule = NotificationRule {
        app_name: Some("slack".to_string()),
        summary: Some("*message*".to_string()),
        body: None,
        foreground: None,
        background: Some("#ff0000".to_string()),
    };
    assert!(rule.matches("Slack", "New message arrived", "whatever"));
    assert!(!rule.matches("slack", "no match here", "whatever"));
    assert!(!rule.matches("firefox", "New message arrived", "whatever"));
}

#[test]
fn test_rule_without_patterns_matches_everything() {
    let rule = NotificationRule {
        app_name: None,
        summary: None,
        body: None,
        foreground: None,
        background: None,
    };
    assert!(rule.matches("any", "thing", "at all"));
}

#[test]
fn test_notification_filter() {
    let n = mk("discord", "Direct message", "hello there");
    let pass = NotificationFilter {
        app_name: Some("discord".to_string()),
        summary: Some("*message*".to_string()),
        body: None,
    };
    assert!(n.matches_filter(&pass));
    let fail = NotificationFilter {
        app_name: Some("slack".to_string()),
        summary: None,
        body: None,
    };
    assert!(!n.matches_filter(&fail));
}
