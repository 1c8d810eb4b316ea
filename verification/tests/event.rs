use runst::event::{
    classify_press, dispatch_event, get_clicked_index, is_invoke_action, should_redraw, wait_mode,
    UiAction, UiEvent, WaitMode, CLOSE_BUTTON_WIDTH,
};
use runst::layout::Bound;

fn bounds() -> Vec<Bound> {
    vec![
        Bound { y_start: 0, y_end: 10, index: 1 },
        Bound { y_start: 12, y_end: 19, index: 0 },
    ]
}

#[test]
fn test_clicked_index_resolution() {
    let b = bounds();
    assert_eq!(get_clicked_index(&b, 0), Some(1));
    assert_eq!(get_clicked_index(&b, 9), Some(1));
    // Rows 10 and 11 fall in the separator gap.
    assert_eq!(get_clicked_index(&b, 10), None);
    assert_eq!(get_clicked_index(&b, 11), None);
    assert_eq!(get_clicked_index(&b, 12), Some(0));
    assert_eq!(get_clicked_index(&b, 18), Some(0));
    // Below all bounds (the footer area) nothing matches.
    assert_eq!(get_clicked_index(&b, 19), None);
    assert_eq!(get_clicked_index(&b, 100), None);
    assert_eq!(get_clicked_index(&Vec::new(), 5), None);
}

#[test]
fn test_close_affordance_geometry() {
    let width = 600;
    // A press on the last pixel column lands in the close affordance.
    assert!(!is_invoke_action(width - 1, width));
    // A press on the first pixel column invokes the notification.
    assert!(is_invoke_action(0, width));
    // The boundary sits exactly at the band's width from the right edge.
    assert!(is_invoke_action(width - CLOSE_BUTTON_WIDTH - 1, width));
    assert!(!is_invoke_action(width - CLOSE_BUTTON_WIDTH, width));
    // A window narrower than the band has no invoke region at all.
    assert!(!is_invoke_action(0, 20));
}

#[test]
fn test_classify_press() {
    let b = bounds();
    let (idx, invoke) = classify_press(&b, 5, 14, 600);
    assert_eq!(idx, Some(0));
    assert!(invoke);
    let (idx, invoke) = classify_press(&b, 599, 5, 600);
    assert_eq!(idx, Some(1));
    assert!(!invoke);
    let (idx, _) = classify_press(&b, 5, 11, 600);
    assert_eq!(idx, None);
}

#[test]
fn test_dispatch_event() {
    let b = bounds();
    // An expose always triggers a redraw.
    assert_eq!(dispatch_event(&UiEvent::Exposed, &b, 600), UiAction::Redraw);
    // A press resolves to the clicked row and the invoke-versus-close flag.
    assert_eq!(
        dispatch_event(&UiEvent::Pressed { x: 5, y: 14 }, &b, 600),
        UiAction::Press { index: Some(0), invoke_action: true }
    );
    assert_eq!(
        dispatch_event(&UiEvent::Pressed { x: 599, y: 5 }, &b, 600),
        UiAction::Press { index: Some(1), invoke_action: false }
    );
    // A press on the separator gap resolves to no notification.
    assert_eq!(
        dispatch_event(&UiEvent::Pressed { x: 5, y: 11 }, &b, 600),
        UiAction::Press { index: None, invoke_action: true }
    );
    // Every other event is ignored.
    assert_eq!(dispatch_event(&UiEvent::Other, &b, 600), UiAction::Ignore);
}

#[test]
fn test_wait_mode_policy() {
    // Polling only when unread notifications exist and refresh is enabled.
    assert_eq!(wait_mode(0, 1000), WaitMode::Blocking);
    assert_eq!(wait_mode(3, 0), WaitMode::Blocking);
    assert_eq!(wait_mode(0, 0), WaitMode::Blocking);
    assert_eq!(wait_mode(3, 1000), WaitMode::Polling);
}

#[test]
fn test_should_redraw_cadence() {
    assert!(!should_redraw(999, 1000));
    assert!(should_redraw(1000, 1000));
    assert!(should_redraw(5000, 1000));
    // A zero interval redraws unconditionally once polling.
    assert!(should_redraw(0, 0));
}
