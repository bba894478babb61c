//! Placement of the overlay window relative to the Windows taskbar.
use vstd::prelude::*;

use crate::text::{decimal, push_decimal, push_str};

verus! {

/// The width of the compact overlay.
pub const COMPACT_WIDTH: u32 = 560;

/// The narrowest compact overlay.
pub const MIN_COMPACT_WIDTH: u32 = 360;

/// The widest compact overlay.
pub const MAX_COMPACT_WIDTH: u32 = 720;

/// The height of the compact overlay.
pub const COMPACT_HEIGHT: u32 = 52;

/// The height of the expanded overlay.
pub const EXPANDED_HEIGHT: u32 = 178;

/// The gap between the overlay and the taskbar's edges.
pub const TASKBAR_INSET: i32 = 12;

/// `windows_sys::Win32::UI::Shell::ABE_LEFT`, defined as `0u32`.
#[verifier::external_body]
fn abe_left() -> (e: u32)
    ensures
        e == 0,
{
    windows_sys::Win32::UI::Shell::ABE_LEFT
}

/// `windows_sys::Win32::UI::Shell::ABE_TOP`, defined as `1u32`.
#[verifier::external_body]
fn abe_top() -> (e: u32)
    ensures
        e == 1,
{
    windows_sys::Win32::UI::Shell::ABE_TOP
}

/// `windows_sys::Win32::UI::Shell::ABE_RIGHT`, defined as `2u32`.
#[verifier::external_body]
fn abe_right() -> (e: u32)
    ensures
        e == 2,
{
    windows_sys::Win32::UI::Shell::ABE_RIGHT
}

/// `windows_sys::Win32::UI::Shell::ABE_BOTTOM`, defined as `3u32`.
#[verifier::external_body]
fn abe_bottom() -> (e: u32)
    ensures
        e == 3,
{
    windows_sys::Win32::UI::Shell::ABE_BOTTOM
}

/// The taskbar's rectangle, the screen edge it is docked to (an `ABE_*`
/// value) and its window.
#[derive(Clone, Copy, Debug, PartialEq, Eq, Structural)]
pub struct TaskbarBounds {
    pub left: i32,
    pub top: i32,
    pub right: i32,
    pub bottom: i32,
    pub edge: u32,
    pub window_handle: isize,
}

/// Where a band of `size` starts when centred between `start` and `end`,
/// clamped to `start` when it does not fit.
pub open spec fn centered_inside_spec(start: i32, end: i32, size: u32) -> int {
    let room = end - start - (size as i32);
    start + (if room > 0 {
        room
    } else {
        0
    }) / 2
}

/// Whether centring cannot overflow.
pub open spec fn centering_fits(start: i32, end: i32, size: u32) -> bool {
    i32::MIN <= end - start <= i32::MAX && i32::MIN <= end - start - (size as i32) <= i32::MAX
        && i32::MIN <= centered_inside_spec(start, end, size) <= i32::MAX
}

/// Where a band of `size` starts when centred between `start` and `end`.
pub fn centered_inside(start: i32, end: i32, size: u32) -> (r: i32)
    requires
        centering_fits(start, end, size),
    ensures
        r == centered_inside_spec(start, end, size),
{
    let room = end - start - (size as i32);
    let half = if room > 0 {
        room / 2
    } else {
        0
    };
    start + half
}

/// The vertical position of the overlay on a horizontal taskbar: centred in
/// the band when compact, otherwise just above (bottom taskbar) or below
/// (top taskbar) it.
pub open spec fn placement_y(taskbar: TaskbarBounds, height: u32, compact: bool) -> int {
    if compact {
        centered_inside_spec(taskbar.top, taskbar.bottom, height)
    } else if taskbar.edge == 3 {
        taskbar.top - (height as i32) - TASKBAR_INSET
    } else {
        taskbar.bottom + TASKBAR_INSET
    }
}

/// Whether the placement arithmetic stays within `i32` (it panics
/// otherwise).
pub open spec fn placement_fits(taskbar: TaskbarBounds, height: u32, compact: bool) -> bool {
    if taskbar.edge == 3 || taskbar.edge == 1 {
        &&& i32::MIN <= taskbar.left + TASKBAR_INSET <= i32::MAX
        &&& compact ==> centering_fits(taskbar.top, taskbar.bottom, height)
        &&& !compact && taskbar.edge == 3 ==> i32::MIN <= taskbar.top - (height as i32) <= i32::MAX
            && i32::MIN <= taskbar.top - (height as i32) - TASKBAR_INSET <= i32::MAX
        &&& !compact && taskbar.edge == 1 ==> i32::MIN <= taskbar.bottom + TASKBAR_INSET <= i32::MAX
    } else if taskbar.edge == 0 {
        &&& i32::MIN <= taskbar.right + TASKBAR_INSET <= i32::MAX
        &&& i32::MIN <= taskbar.top + TASKBAR_INSET <= i32::MAX
    } else if taskbar.edge == 2 {
        &&& i32::MIN <= taskbar.left - (COMPACT_WIDTH as i32) <= i32::MAX
        &&& i32::MIN <= taskbar.left - (COMPACT_WIDTH as i32) - TASKBAR_INSET <= i32::MAX
        &&& i32::MIN <= taskbar.top + TASKBAR_INSET <= i32::MAX
    } else {
        true
    }
}

/// Whether `x` is an `i32` value.
fn fits_i32(x: i64) -> (r: bool)
    ensures
        r == (i32::MIN <= x <= i32::MAX),
{
    i32::MIN as i64 <= x && x <= i32::MAX as i64
}

/// Whether placing the overlay for this taskbar stays within `i32` (see
/// `placement_fits`).
pub fn placement_is_representable(taskbar: TaskbarBounds, height: u32, compact: bool) -> (r: bool)
    ensures
        r == placement_fits(taskbar, height, compact),
{
    let left = taskbar.left as i64;
    let top = taskbar.top as i64;
    let right = taskbar.right as i64;
    let bottom = taskbar.bottom as i64;
    let inset = TASKBAR_INSET as i64;
    let h = (height as i32) as i64;
    if taskbar.edge == 3 || taskbar.edge == 1 {
        let centring = {
            let span = bottom - top;
            let room = span - h;
            let start = top + if room > 0 {
                room / 2
            } else {
                0
            };
            fits_i32(span) && fits_i32(room) && fits_i32(start)
        };
        fits_i32(left + inset) && (!compact || centring) && (compact || taskbar.edge != 3 || (
        fits_i32(top - h) && fits_i32(top - h - inset))) && (compact || taskbar.edge != 1
            || fits_i32(bottom + inset))
    } else if taskbar.edge == 0 {
        fits_i32(right + inset) && fits_i32(top + inset)
    } else if taskbar.edge == 2 {
        let w = COMPACT_WIDTH as i64;
        fits_i32(left - w) && fits_i32(left - w - inset) && fits_i32(top + inset)
    } else {
        true
    }
}

/// The message for an unknown taskbar edge.
pub open spec fn unsupported_edge_message(edge: u32) -> Seq<char> {
    "unsupported taskbar edge: "@ + decimal(edge as nat)
}

/// The top-left corner of the overlay for a taskbar.  On a bottom or top
/// taskbar the overlay starts at the taskbar's left edge plus the inset
/// (vertically see `placement_y`); beside a left taskbar it starts right of
/// it, beside a right taskbar a compact width left of it, both an inset
/// below the taskbar's top.  Other edges are refused.
pub fn placement_for_taskbar(taskbar: TaskbarBounds, height: u32, compact: bool) -> (r: Result<(i32, i32), String>)
    requires
        placement_fits(taskbar, height, compact),
    ensures
        (taskbar.edge == 3 || taskbar.edge == 1) ==> r == Ok::<(i32, i32), String>(
            ((taskbar.left + TASKBAR_INSET) as i32, placement_y(taskbar, height, compact) as i32),
        ),
        taskbar.edge == 0 ==> r == Ok::<(i32, i32), String>(
            ((taskbar.right + TASKBAR_INSET) as i32, (taskbar.top + TASKBAR_INSET) as i32),
        ),
        taskbar.edge == 2 ==> r == Ok::<(i32, i32), String>(
            (
                (taskbar.left - (COMPACT_WIDTH as i32) - TASKBAR_INSET) as i32,
                (taskbar.top + TASKBAR_INSET) as i32,
            ),
        ),
        taskbar.edge > 3 ==> (r matches Err(m) && m@ == unsupported_edge_message(taskbar.edge)),
        (taskbar.edge == 3 || taskbar.edge == 1) && compact && height <= i32::MAX ==> (r matches Ok(
            p,
        ) && (taskbar.bottom - taskbar.top >= height ==> taskbar.top <= p.1 && p.1 + height
            <= taskbar.bottom) && (taskbar.bottom - taskbar.top < height ==> p.1 == taskbar.top)),
        taskbar.edge == 3 && !compact && height <= i32::MAX ==> (r matches Ok(p) && p.1 + height + TASKBAR_INSET
            == taskbar.top),
        taskbar.edge == 1 && !compact ==> (r matches Ok(p) && p.1 == taskbar.bottom + TASKBAR_INSET),
{
    if taskbar.edge == abe_bottom() {
        let y = if compact {
            centered_inside(taskbar.top, taskbar.bottom, height)
        } else {
            taskbar.top - height as i32 - TASKBAR_INSET
        };
        Ok((taskbar.left + TASKBAR_INSET, y))
    } else if taskbar.edge == abe_top() {
        let y = if compact {
            centered_inside(taskbar.top, taskbar.bottom, height)
        } else {
            taskbar.bottom + TASKBAR_INSET
        };
        Ok((taskbar.left + TASKBAR_INSET, y))
    } else if taskbar.edge == abe_left() {
        Ok((taskbar.right + TASKBAR_INSET, taskbar.top + TASKBAR_INSET))
    } else if taskbar.edge == abe_right() {
        Ok((taskbar.left - COMPACT_WIDTH as i32 - TASKBAR_INSET, taskbar.top + TASKBAR_INSET))
    } else {
        let mut m = String::new();
        push_str(&mut m, "unsupported taskbar edge: ");
        push_decimal(&mut m, taskbar.edge as u64);
        assert(m@ =~= unsupported_edge_message(taskbar.edge));
        Err(m)
    }
}

/// The compact width clamped to the supported range.
pub fn normalize_compact_width(width: u32) -> (w: u32)
    ensures
        w == if width < MIN_COMPACT_WIDTH {
            MIN_COMPACT_WIDTH
        } else if width > MAX_COMPACT_WIDTH {
            MAX_COMPACT_WIDTH
        } else {
            width
        },
        MIN_COMPACT_WIDTH <= w <= MAX_COMPACT_WIDTH,
        MIN_COMPACT_WIDTH <= width <= MAX_COMPACT_WIDTH ==> w == width,
{
    if width < MIN_COMPACT_WIDTH {
        MIN_COMPACT_WIDTH
    } else if width > MAX_COMPACT_WIDTH {
        MAX_COMPACT_WIDTH
    } else {
        width
    }
}


/// On a horizontal taskbar the overlay sits in the taskbar's band when
/// compact (inside it when the band is tall enough, at its top otherwise),
/// just above a bottom taskbar and just below a top one when expanded, and
/// always an inset right of the taskbar's left edge.
pub proof fn horizontal_taskbar_placement(taskbar: TaskbarBounds, height: u32, compact: bool)
    requires
        taskbar.edge == 3 || taskbar.edge == 1,
        placement_fits(taskbar, height, compact),
        height <= i32::MAX,
    ensures
        compact && taskbar.bottom - taskbar.top >= height ==> taskbar.top <= placement_y(
            taskbar,
            height,
            compact,
        ) && placement_y(taskbar, height, compact) + height <= taskbar.bottom,
        compact && taskbar.bottom - taskbar.top < height ==> placement_y(taskbar, height, compact)
            == taskbar.top,
        !compact && taskbar.edge == 3 ==> placement_y(taskbar, height, compact) + height
            + TASKBAR_INSET == taskbar.top,
        !compact && taskbar.edge == 1 ==> placement_y(taskbar, height, compact) == taskbar.bottom
            + TASKBAR_INSET,
{
    if compact {
        compact_overlay_stays_in_band(taskbar.top, taskbar.bottom, height);
    }
}

/// A compact overlay centred in a taskbar band lies inside the band when
/// the band is tall enough, and starts at the band's top otherwise.
pub proof fn compact_overlay_stays_in_band(top: i32, bottom: i32, height: u32)
    requires
        centering_fits(top, bottom, height),
        height <= i32::MAX,
    ensures
        bottom - top >= height ==> top <= centered_inside_spec(top, bottom, height) && centered_inside_spec(
            top,
            bottom,
            height,
        ) + height <= bottom,
        bottom - top < height ==> centered_inside_spec(top, bottom, height) == top,
{
}

} // verus!
