//! The height of the transfer drawer.
//!
//! Lengths in a window are thousandths of a pixel. Heights of the drawer are counted in halves of
//! that, so that half of any length is a height.

use vstd::prelude::*;

verus! {

/// 240 pixels.
pub const DEFAULT_DRAWER_HEIGHT: i64 = 480_000;

/// 40 pixels: the resize handle and one row.
pub const MIN_DRAWER_HEIGHT: i64 = 80_000;

/// 480 pixels.
pub const MAX_DRAWER_HEIGHT_ABS: i64 = 960_000;

/// 5 pixels.
pub const RESIZE_HANDLE_HEIGHT: i64 = 10_000;

/// What the tab bar and the status bar take, roughly, as a length: 64 pixels.
pub const APPROX_CHROME_HEIGHT: i64 = 64_000;

/// The least length of a content area: that of the lowest drawer.
pub const MIN_CONTENT_HEIGHT: i64 = 40_000;

/// The largest height that a content area of a length allows: half of it, within the absolute
/// bounds.
pub open spec fn largest_height(content_area_height: i64) -> int {
    // Half of a length is the same number of halves.
    let half = content_area_height as int;
    if half < MIN_DRAWER_HEIGHT {
        MIN_DRAWER_HEIGHT as int
    } else if half < MAX_DRAWER_HEIGHT_ABS {
        half
    } else {
        MAX_DRAWER_HEIGHT_ABS as int
    }
}

/// The allowed height nearest to the one asked for.
pub open spec fn allowed_height(height: int, content_area_height: i64) -> int {
    if height < MIN_DRAWER_HEIGHT {
        MIN_DRAWER_HEIGHT as int
    } else if height > largest_height(content_area_height) {
        largest_height(content_area_height)
    } else {
        height
    }
}

/// The allowed height nearest to the one asked for.
pub fn clamp_drawer_height(height: i64, content_area_height: i64) -> (r: i64)
    ensures
        r == allowed_height(height as int, content_area_height),
{
    let largest: i64 = if content_area_height < MIN_DRAWER_HEIGHT {
        MIN_DRAWER_HEIGHT
    } else if content_area_height < MAX_DRAWER_HEIGHT_ABS {
        content_area_height
    } else {
        MAX_DRAWER_HEIGHT_ABS
    };
    if height < MIN_DRAWER_HEIGHT {
        MIN_DRAWER_HEIGHT
    } else if height > largest {
        largest
    } else {
        height
    }
}

/// The length of the content area of a window.
pub open spec fn content_height(viewport_height: i64) -> int {
    if viewport_height - APPROX_CHROME_HEIGHT < MIN_CONTENT_HEIGHT {
        MIN_CONTENT_HEIGHT as int
    } else {
        viewport_height - APPROX_CHROME_HEIGHT
    }
}

/// The length of the content area of a window.
pub fn content_area_height_from_viewport(viewport_height: i64) -> (r: i64)
    ensures
        r == content_height(viewport_height),
{
    if viewport_height < MIN_CONTENT_HEIGHT + APPROX_CHROME_HEIGHT {
        MIN_CONTENT_HEIGHT
    } else {
        viewport_height - APPROX_CHROME_HEIGHT
    }
}

/// A drag of the resize handle: the place where it began, and the height of the drawer then.
#[derive(Clone, Copy, PartialEq, Eq, Structural, Debug)]
pub struct TransferDrawerResize {
    pub start_height: i64,
    pub start_y: i64,
}

/// The height that a drag to `current_y` asks for; up makes the drawer higher.
pub fn dragged_height(
    start: TransferDrawerResize,
    current_y: i64,
    content_area_height: i64,
) -> (r: i64)
    ensures
        r == allowed_height(
            start.start_height + 2 * (start.start_y - current_y),
            content_area_height,
        ),
{
    let moved: i128 = start.start_y as i128 - current_y as i128;
    let asked: i128 = start.start_height as i128 + 2 * moved;
    if asked < MIN_DRAWER_HEIGHT as i128 {
        clamp_drawer_height(0, content_area_height)
    } else if asked > MAX_DRAWER_HEIGHT_ABS as i128 {
        clamp_drawer_height(MAX_DRAWER_HEIGHT_ABS, content_area_height)
    } else {
        clamp_drawer_height(asked as i64, content_area_height)
    }
}

/// An allowed height lies within the bounds, and asking for it again leaves it.
pub proof fn law_allowed_height_is_stable(height: int, content_area_height: i64)
    ensures
        MIN_DRAWER_HEIGHT <= allowed_height(height, content_area_height) <= MAX_DRAWER_HEIGHT_ABS,
        allowed_height(allowed_height(height, content_area_height), content_area_height)
            == allowed_height(height, content_area_height),
{
}

}
