//! Window position calculation: an anchor corner, a pixel offset from that
//! corner, the content size and the screen size give the window's top-left
//! coordinate, clamped so the window is never placed at a negative position.

use vstd::prelude::*;
use crate::config::Origin;

verus! {

/// The x coordinate before clamping: offsets measure from the anchored edge.
pub open spec fn spec_raw_x(origin: Origin, offset_x: int, width: int, screen_w: int) -> int {
    match origin {
        Origin::TopLeft => offset_x,
        Origin::BottomLeft => offset_x,
        Origin::TopRight => screen_w - width - offset_x,
        Origin::BottomRight => screen_w - width - offset_x,
    }
}

/// The y coordinate before clamping.
pub open spec fn spec_raw_y(origin: Origin, offset_y: int, height: int, screen_h: int) -> int {
    match origin {
        Origin::TopLeft => offset_y,
        Origin::TopRight => offset_y,
        Origin::BottomLeft => screen_h - height - offset_y,
        Origin::BottomRight => screen_h - height - offset_y,
    }
}

/// Window position: the raw anchored coordinate, pinned to the screen edge
/// rather than ever going negative.
pub open spec fn spec_position(
    origin: Origin,
    offset_x: int,
    offset_y: int,
    width: int,
    height: int,
    screen_w: int,
    screen_h: int,
) -> (int, int) {
    let x = spec_raw_x(origin, offset_x, width, screen_w);
    let y = spec_raw_y(origin, offset_y, height, screen_h);
    (if x < 0 { 0 } else { x }, if y < 0 { 0 } else { y })
}

/// Calculates the window position from the origin anchor point.
///
/// A top-left anchor places the window at the configured offset; the other
/// anchors measure the offset from the opposite screen edge, so the content
/// size is subtracted. Coordinates are clamped to a minimum of 0.
pub fn calculate_position_from_origin(
    origin: Origin,
    offset_x: u32,
    offset_y: u32,
    width: u32,
    height: u32,
    screen_width: u16,
    screen_height: u16,
) -> (pos: (i32, i32))
    requires
        offset_x <= i32::MAX,
        offset_y <= i32::MAX,
    ensures
        (pos.0 as int, pos.1 as int) == spec_position(
            origin,
            offset_x as int,
            offset_y as int,
            width as int,
            height as int,
            screen_width as int,
            screen_height as int,
        ),
{
    let screen_w = screen_width as i64;
    let screen_h = screen_height as i64;
    let off_x = offset_x as i64;
    let off_y = offset_y as i64;
    let w = width as i64;
    let h = height as i64;

    let x: i64 = match origin {
        Origin::TopLeft => off_x,
        Origin::BottomLeft => off_x,
        Origin::TopRight => screen_w - w - off_x,
        Origin::BottomRight => screen_w - w - off_x,
    };
    let y: i64 = match origin {
        Origin::TopLeft => off_y,
        Origin::TopRight => off_y,
        Origin::BottomLeft => screen_h - h - off_y,
        Origin::BottomRight => screen_h - h - off_y,
    };

    let x = if x < 0 { 0 } else { x };
    let y = if y < 0 { 0 } else { y };
    (x as i32, y as i32)
}

} // verus!
