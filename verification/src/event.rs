//! Event-loop policy and pointer-press resolution: whether to block or
//! poll, when a periodic redraw is due, and how a pixel coordinate maps to a
//! clicked notification and the invoke-versus-close decision. The windowing
//! connection itself lives with the driver outside the crate; it hands the
//! events in as plain values.

use vstd::prelude::*;
use crate::layout::{Bound, spec_bounds_disjoint};

verus! {

/// Width in pixels of the close-affordance band at the right edge of each
/// notification row.
pub const CLOSE_BUTTON_WIDTH: i32 = 30;

/// How the event loop waits for the next event.
#[derive(Clone, Copy, Debug, PartialEq, Eq, Structural)]
pub enum WaitMode {
    /// Wait indefinitely for the next event.
    Blocking,
    /// Poll without blocking and redraw periodically.
    Polling,
}

/// The loop polls only when unread notifications exist and a refresh
/// interval is configured; otherwise it blocks.
pub open spec fn spec_wait_mode(unread_count: int, refresh_interval_ms: int) -> WaitMode {
    if refresh_interval_ms > 0 && unread_count > 0 {
        WaitMode::Polling
    } else {
        WaitMode::Blocking
    }
}

/// Decides whether the loop blocks for the next event or polls.
pub fn wait_mode(unread_count: usize, refresh_interval_ms: u64) -> (r: WaitMode)
    ensures
        r == spec_wait_mode(unread_count as int, refresh_interval_ms as int),
{
    if refresh_interval_ms > 0 && unread_count > 0 {
        WaitMode::Polling
    } else {
        WaitMode::Blocking
    }
}

/// A periodic redraw is due once the refresh interval has elapsed since the
/// last one.
pub fn should_redraw(elapsed_ms: u128, refresh_interval_ms: u64) -> (r: bool)
    ensures
        r == (elapsed_ms >= refresh_interval_ms),
{
    elapsed_ms >= refresh_interval_ms as u128
}

/// The first bound at or after `from` whose rows contain `y`.
pub open spec fn spec_clicked_index(bounds: Seq<Bound>, y: int, from: int) -> Option<usize>
    decreases bounds.len() - from,
{
    if from < 0 || from >= bounds.len() {
        None
    } else if bounds[from].y_start <= y < bounds[from].y_end {
        Some(bounds[from].index)
    } else {
        spec_clicked_index(bounds, y, from + 1)
    }
}

/// Returns the display-order index of the notification whose rows contain
/// `y` at the most recent draw; `None` if `y` falls on a separator, the
/// footer or outside all bounds.
pub fn get_clicked_index(bounds: &Vec<Bound>, y: i32) -> (r: Option<usize>)
    ensures
        r == spec_clicked_index(bounds@, y as int, 0),
{
    let n = bounds.len();
    let mut i: usize = 0;
    #[verifier::loop_isolation(false)]
    while i < n
        invariant
            i <= n,
            spec_clicked_index(bounds@, y as int, 0) == spec_clicked_index(
                bounds@,
                y as int,
                i as int,
            ),
        decreases n - i,
    {
        let b = bounds[i];
        if b.y_start <= y && y < b.y_end {
            return Some(b.index);
        }
        i = i + 1;
    }
    None
}

/// A press invokes the notification when it falls left of the
/// close-affordance band; inside the band it closes instead.
pub open spec fn spec_invoke_action(x: int, window_width: int) -> bool {
    x < window_width - CLOSE_BUTTON_WIDTH
}

/// Whether a press at `x` invokes the notification (true) or hits the close
/// affordance (false).
pub fn is_invoke_action(x: i32, window_width: i32) -> (r: bool)
    ensures
        r == spec_invoke_action(x as int, window_width as int),
{
    (x as i64) < (window_width as i64) - (CLOSE_BUTTON_WIDTH as i64)
}

/// Resolves a pointer press into the clicked notification (if any) and the
/// invoke-versus-close decision, against the click bounds of the most
/// recent draw.
pub fn classify_press(bounds: &Vec<Bound>, x: i32, y: i32, window_width: i32) -> (r: (
    Option<usize>,
    bool,
))
    ensures
        r.0 == spec_clicked_index(bounds@, y as int, 0),
        r.1 == spec_invoke_action(x as int, window_width as int),
{
    (get_clicked_index(bounds, y), is_invoke_action(x, window_width))
}

/// A windowing event, reduced to the plain values the loop policy needs.
#[derive(Clone, Copy, Debug, PartialEq, Eq, Structural)]
pub enum UiEvent {
    /// The window was exposed and needs repainting.
    Exposed,
    /// A button press at window-local pixel coordinates.
    Pressed {
        /// Horizontal pixel coordinate of the press.
        x: i32,
        /// Vertical pixel coordinate of the press.
        y: i32,
    },
    /// Any other event.
    Other,
}

/// What the event loop does in response to one event.
#[derive(Clone, Copy, Debug, PartialEq, Eq, Structural)]
pub enum UiAction {
    /// Redraw from the current manager state.
    Redraw,
    /// Hand the resolved press to the press callback.
    Press {
        /// The clicked notification's display-order index, if any.
        index: Option<usize>,
        /// Whether the press invokes the notification rather than closing
        /// it.
        invoke_action: bool,
    },
    /// Do nothing.
    Ignore,
}

/// Maps one incoming event to the loop's action: an expose triggers a full
/// redraw, a press resolves against the click bounds of the most recent
/// draw, and anything else is ignored.
pub fn dispatch_event(event: &UiEvent, bounds: &Vec<Bound>, window_width: i32) -> (r: UiAction)
    ensures
        r == match *event {
            UiEvent::Exposed => UiAction::Redraw,
            UiEvent::Pressed { x, y } => UiAction::Press {
                index: spec_clicked_index(bounds@, y as int, 0),
                invoke_action: spec_invoke_action(x as int, window_width as int),
            },
            UiEvent::Other => UiAction::Ignore,
        },
{
    match event {
        UiEvent::Exposed => UiAction::Redraw,
        UiEvent::Pressed { x, y } => {
            let (index, invoke_action) = classify_press(bounds, *x, *y, window_width);
            UiAction::Press { index, invoke_action }
        },
        UiEvent::Other => UiAction::Ignore,
    }
}

/// Law: a press on the last pixel column of a row never invokes; it always
/// lands in the close affordance.
pub proof fn lemma_rightmost_press_closes(window_width: int)
    ensures
        !spec_invoke_action(window_width - 1, window_width),
{
}

/// Law: a press on the first pixel column invokes, provided the window is
/// wider than the close affordance.
pub proof fn lemma_leftmost_press_invokes(window_width: int)
    requires
        window_width > CLOSE_BUTTON_WIDTH,
    ensures
        spec_invoke_action(0, window_width),
{
}

/// Law: against disjoint click bounds, a pixel row resolves to at most one
/// bound — if the resolver walks from anywhere past a bound that contains
/// `y`, no later bound contains `y` again.
pub proof fn lemma_row_resolves_uniquely(bounds: Seq<Bound>, y: int, a: int, b: int)
    requires
        spec_bounds_disjoint(bounds),
        0 <= a < b < bounds.len(),
        bounds[a].y_start <= y < bounds[a].y_end,
    ensures
        !(bounds[b].y_start <= y < bounds[b].y_end),
{
    assert(bounds[a].y_end <= bounds[b].y_start);
}

} // verus!
