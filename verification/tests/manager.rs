use runst::error::Error;
use runst::manager::Manager;
use runst::notification::{Notification, Urgency};

fn mk(id: u32, app: &str) -> Notification {
    Notification {
        id,
        app_name: app.to_string(),
        summary: format!("summary {}", id),
        body: String::new(),
        urgency: Urgency::Normal,
        timestamp: 1000 + id as u64,
        expire_timeout: None,
    }
}

#[test]
fn test_ring_buffer_eviction() {
    // Display limit 3: after any number of enqueues, at most 3 unread remain
    // and they are the most recent ones.
    let mut m = Manager::new(3);
    for i in 1..=7 {
        m.enqueue(mk(i, "app"));
        assert!(m.unread_count() <= 3);
    }
    assert_eq!(m.unread_count(), 3);
    let buf = m.unread_buffer(0);
    let ids: Vec<u32> = buf.iter().map(|n| n.id).collect();
    assert_eq!(ids, vec![5, 6, 7]);
}

#[test]
fn test_unlimited_when_display_limit_zero() {
    let mut m = Manager::new(0);
    for i in 1..=50 {
        m.enqueue(mk(i, "app"));
    }
    assert_eq!(m.unread_count(), 50);
}

#[test]
fn test_mark_last_then_last_unread_differs() {
    // The identity returned by last_unread never repeats across a
    // mark_last_as_read without an intervening enqueue.
    let mut m = Manager::new(0);
    m.enqueue(mk(1, "app"));
    m.enqueue(mk(2, "app"));
    let first = m.last_unread().unwrap().id;
    m.mark_last_as_read();
    let second = m.last_unread().unwrap().id;
    assert_ne!(first, second);
    assert_eq!(first, 2);
    assert_eq!(second, 1);
}

#[test]
fn test_last_unread_empty_state() {
    let m = Manager::new(5);
    assert_eq!(m.last_unread().unwrap_err(), Error::EmptyState);
}

#[test]
fn test_mark_last_as_read_on_empty_is_noop() {
    let mut m = Manager::new(5);
    m.mark_last_as_read();
    assert_eq!(m.unread_count(), 0);
}

#[test]
fn test_unread_buffer_window() {
    let mut m = Manager::new(0);
    for i in 1..=5 {
        m.enqueue(mk(i, "app"));
    }
    let window = m.unread_buffer(2);
    let ids: Vec<u32> = window.iter().map(|n| n.id).collect();
    // The two most recent, oldest of the window first.
    assert_eq!(ids, vec![4, 5]);
    let all = m.unread_buffer(0);
    assert_eq!(all.len(), 5);
    let wide = m.unread_buffer(100);
    assert_eq!(wide.len(), 5);
}

#[test]
fn test_dismiss_by_index_and_stale_index() {
    let mut m = Manager::new(0);
    m.enqueue(mk(1, "app"));
    m.enqueue(mk(2, "app"));
    m.dismiss(0);
    assert_eq!(m.unread_count(), 1);
    assert_eq!(m.last_unread().unwrap().id, 2);
    // A stale index is a defined no-op.
    m.dismiss(5);
    assert_eq!(m.unread_count(), 1);
}

#[test]
fn test_dismiss_by_id() {
    let mut m = Manager::new(0);
    m.enqueue(mk(1, "app"));
    m.enqueue(mk(2, "app"));
    m.enqueue(mk(3, "app"));
    m.dismiss_by_id(2);
    let ids: Vec<u32> = m.unread_buffer(0).iter().map(|n| n.id).collect();
    assert_eq!(ids, vec![1, 3]);
    // An identity that already left is a defined no-op.
    m.dismiss_by_id(2);
    assert_eq!(m.unread_count(), 2);
}

#[test]
fn test_end_to_end_enqueue_dismiss() {
    // Enqueue 3 notifications with display limit 2: the first is evicted,
    // and dismissing the 2nd by its index leaves only the 3rd unread.
    let mut m = Manager::new(2);
    m.enqueue(mk(1, "app"));
    m.enqueue(mk(2, "app"));
    m.enqueue(mk(3, "app"));
    assert_eq!(m.unread_count(), 2);
    let buf = m.unread_buffer(10);
    let ids: Vec<u32> = buf.iter().map(|n| n.id).collect();
    assert_eq!(ids, vec![2, 3]);
    m.dismiss(0);
    assert_eq!(m.unread_count(), 1);
    let buf = m.unread_buffer(10);
    assert_eq!(buf.len(), 1);
    assert_eq!(buf[0].id, 3);
}
