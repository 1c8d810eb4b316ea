use runst::config::{Color, Config, Geometry, GlobalConfig, LogLevel, Origin, UrgencyConfig};
use runst::layout::{assemble_layout, build_blocks, SEPARATOR_HEIGHT};
use runst::markup::{escape_markup, footer_markup, notification_markup};
use runst::notification::{Notification, Urgency};

fn urgency_config() -> UrgencyConfig {
    UrgencyConfig {
        background: Color { red: 0, green: 0, blue: 0, alpha: 255 },
        foreground: Color { red: 255, green: 255, blue: 255, alpha: 255 },
        timeout: 10,
        auto_clear: None,
        text: None,
        custom_commands: None,
    }
}

fn config() -> Config {
    Config {
        global: GlobalConfig {
            log_verbosity: LogLevel::Info,
            startup_notification: false,
            geometry: Geometry { width: 600, height: 100, x: 10, y: 20 },
            origin: Origin::TopRight,
            wrap_content: true,
            font: "monospace 10".to_string(),
            template: "{{ app_name }}".to_string(),
            display_limit: 5,
            min_width: Some(600),
            refresh_interval_ms: 1000,
        },
        urgency_low: urgency_config(),
        urgency_normal: urgency_config(),
        urgency_critical: urgency_config(),
        app_colors: vec![("firefox".to_string(), "#112233".to_string())],
        rules: Vec::new(),
    }
}

fn mk(id: u32, app: &str, summary: &str, body: &str, timestamp: u64) -> Notification {
    Notification {
        id,
        app_name: app.to_string(),
        summary: summary.to_string(),
        body: body.to_string(),
        urgency: Urgency::Normal,
        timestamp,
        expire_timeout: None,
    }
}

#[test]
fn test_escape_markup_escapes_all_five() {
    // Body text with every reserved character comes out fully escaped.
    assert_eq!(
        escape_markup("<b>hi</b> & \"you\""),
        "&lt;b&gt;hi&lt;/b&gt; &amp; &quot;you&quot;"
    );
    assert_eq!(escape_markup("don't"), "don&#39;t");
    assert_eq!(escape_markup("plain"), "plain");
    assert_eq!(escape_markup(""), "");
}

#[test]
fn test_notification_markup_exact() {
    let n = mk(1, "app", "sum", "", 100);
    assert_eq!(
        notification_markup(&n, 105),
        "<tt><span foreground=\"#888888\">  5s</span></tt> app <b>sum</b>"
    );
    let n = mk(1, "app", "sum", "body text", 100);
    assert_eq!(
        notification_markup(&n, 105),
        "<tt><span foreground=\"#888888\">  5s</span></tt> app <b>sum</b>\n  body text"
    );
}

#[test]
fn test_notification_markup_escapes_fields() {
    let n = mk(1, "a&b", "<s>", "x\"y'z", 100);
    assert_eq!(
        notification_markup(&n, 100),
        "<tt><span foreground=\"#888888\">  0s</span></tt> a&amp;b <b>&lt;s&gt;</b>\n  x&quot;y&#39;z"
    );
}

#[test]
fn test_age_label_buckets() {
    let at = |age: u64| notification_markup(&mk(1, "a", "s", "", 1000), 1000 + age);
    assert!(at(0).contains(">  0s<"));
    assert!(at(59).contains("> 59s<"));
    assert!(at(60).contains(">  1m<"));
    assert!(at(3599).contains("> 59m<"));
    assert!(at(3600).contains(">  1h<"));
    assert!(at(7200).contains(">  2h<"));
    assert!(at(120).contains(">  2m<"));
    // A clock earlier than the timestamp saturates to age 0.
    let early = notification_markup(&mk(1, "a", "s", "", 1000), 500);
    assert!(early.contains(">  0s<"));
}

#[test]
fn test_footer_markup_exact() {
    assert_eq!(
        footer_markup(3),
        "<span foreground=\"#888888\"><i>... and 3 more</i></span>"
    );
    assert_eq!(
        footer_markup(12),
        "<span foreground=\"#888888\"><i>... and 12 more</i></span>"
    );
}

#[test]
fn test_build_blocks_structure() {
    let cfg = config();
    // Display order: oldest first; the visual stack shows the newest first.
    let notifications = vec![
        mk(1, "firefox", "first", "", 100),
        mk(2, "slack", "second", "", 200),
    ];
    let blocks = build_blocks(&notifications, &cfg, 250, 5);
    // Two notification blocks, one separator, one footer (5 unread > 2).
    assert_eq!(blocks.len(), 4);
    assert!(!blocks[0].is_separator);
    assert_eq!(blocks[0].original_index, Some(1)); // newest first
    assert!(blocks[1].is_separator);
    assert_eq!(blocks[1].original_index, None);
    assert!(!blocks[2].is_separator);
    assert_eq!(blocks[2].original_index, Some(0));
    assert!(!blocks[3].is_separator);
    assert_eq!(blocks[3].original_index, None);
    assert!(blocks[3].markup.contains("3 more"));
    // The app-color map gives the firefox block a background override.
    assert_eq!(blocks[2].bg_color.as_deref(), Some("#112233"));
    assert_eq!(blocks[0].bg_color, None);
}

#[test]
fn test_build_blocks_empty_input() {
    let cfg = config();
    let blocks = build_blocks(&Vec::new(), &cfg, 0, 0);
    assert!(blocks.is_empty());
}

#[test]
fn test_build_blocks_no_footer_when_all_displayed() {
    let cfg = config();
    let notifications = vec![mk(1, "a", "s", "", 100)];
    let blocks = build_blocks(&notifications, &cfg, 100, 1);
    assert_eq!(blocks.len(), 1);
}

#[test]
fn test_layout_engine_is_deterministic() {
    // Identical input produces identical markup strings, block heights and
    // click bounds.
    let cfg = config();
    let notifications = vec![
        mk(1, "firefox", "first", "line", 100),
        mk(2, "slack", "second", "", 200),
        mk(3, "mail", "third", "x", 300),
    ];
    let b1 = build_blocks(&notifications, &cfg, 400, 7);
    let b2 = build_blocks(&notifications, &cfg, 400, 7);
    assert_eq!(b1.len(), b2.len());
    for (x, y) in b1.iter().zip(b2.iter()) {
        assert_eq!(x.markup, y.markup);
        assert_eq!(x.bg_color, y.bg_color);
        assert_eq!(x.is_separator, y.is_separator);
        assert_eq!(x.original_index, y.original_index);
    }
    let heights: Vec<i32> = b1.iter().map(|b| if b.is_separator { SEPARATOR_HEIGHT } else { 17 }).collect();
    let l1 = assemble_layout(&b1, &heights);
    let l2 = assemble_layout(&b2, &heights);
    assert_eq!(l1.offsets, l2.offsets);
    assert_eq!(l1.bounds, l2.bounds);
    assert_eq!(l1.total_height, l2.total_height);
}

#[test]
fn test_assemble_layout_offsets_and_bounds() {
    let cfg = config();
    let notifications = vec![mk(1, "a", "s1", "", 100), mk(2, "b", "s2", "", 200)];
    let blocks = build_blocks(&notifications, &cfg, 300, 5);
    // blocks: notification, separator, notification, footer
    let heights = vec![10, 99, 7, 5]; // the separator's measured height is ignored
    let layout = assemble_layout(&blocks, &heights);
    assert_eq!(layout.offsets, vec![0, 10, 12, 19]);
    assert_eq!(layout.total_height, 24);
    assert_eq!(layout.bounds.len(), 2);
    assert_eq!(
        (layout.bounds[0].y_start, layout.bounds[0].y_end, layout.bounds[0].index),
        (0, 10, 1)
    );
    assert_eq!(
        (layout.bounds[1].y_start, layout.bounds[1].y_end, layout.bounds[1].index),
        (12, 19, 0)
    );
    // Click bounds are disjoint and within the content height.
    assert!(layout.bounds[0].y_end <= layout.bounds[1].y_start);
    assert!(layout.bounds[1].y_end <= layout.total_height);
}
