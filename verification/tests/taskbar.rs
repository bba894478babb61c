use lyricrail::taskbar::{
    normalize_compact_width, placement_for_taskbar, TaskbarBounds, COMPACT_HEIGHT, COMPACT_WIDTH,
    EXPANDED_HEIGHT, MAX_COMPACT_WIDTH, MIN_COMPACT_WIDTH, TASKBAR_INSET,
};
use windows_sys::Win32::UI::Shell::{ABE_BOTTOM, ABE_LEFT, ABE_RIGHT, ABE_TOP};

#[test]
fn compact_overlay_is_centered_inside_bottom_taskbar_band() {
    let taskbar = TaskbarBounds {
        left: 0,
        top: 1020,
        right: 1920,
        bottom: 1080,
        edge: ABE_BOTTOM,
        window_handle: 0,
    };

    let placement = placement_for_taskbar(taskbar, COMPACT_HEIGHT, true).unwrap();

    assert_eq!(placement, (TASKBAR_INSET, 1024));
    assert!(placement.1 >= taskbar.top);
    assert!(placement.1 + COMPACT_HEIGHT as i32 <= taskbar.bottom);
}

#[test]
fn compact_overlay_clamps_to_bottom_taskbar_when_band_is_shorter() {
    let taskbar = TaskbarBounds {
        left: 0,
        top: 1040,
        right: 1920,
        bottom: 1080,
        edge: ABE_BOTTOM,
        window_handle: 0,
    };

    let placement = placement_for_taskbar(taskbar, COMPACT_HEIGHT, true).unwrap();

    assert_eq!(placement, (TASKBAR_INSET, taskbar.top));
}

#[test]
fn expanded_overlay_sits_below_top_taskbar_band() {
    let taskbar = TaskbarBounds {
        left: 0,
        top: 0,
        right: 1920,
        bottom: 40,
        edge: ABE_TOP,
        window_handle: 0,
    };

    let placement = placement_for_taskbar(taskbar, EXPANDED_HEIGHT, false).unwrap();

    assert_eq!(placement, (TASKBAR_INSET, 40 + TASKBAR_INSET));
}

#[test]
fn compact_overlay_sits_beside_left_taskbar_band() {
    let taskbar = TaskbarBounds {
        left: 0,
        top: 0,
        right: 56,
        bottom: 1080,
        edge: ABE_LEFT,
        window_handle: 0,
    };

    let placement = placement_for_taskbar(taskbar, COMPACT_HEIGHT, true).unwrap();

    assert_eq!(placement, (56 + TASKBAR_INSET, TASKBAR_INSET));
}

#[test]
fn compact_overlay_aligns_to_right_taskbar_inner_edge() {
    let taskbar = TaskbarBounds {
        left: 1864,
        top: 0,
        right: 1920,
        bottom: 1080,
        edge: ABE_RIGHT,
        window_handle: 0,
    };

    let placement = placement_for_taskbar(taskbar, COMPACT_HEIGHT, true).unwrap();

    assert_eq!(
        placement,
        (1864 - COMPACT_WIDTH as i32 - TASKBAR_INSET, TASKBAR_INSET)
    );
}

#[test]
fn compact_width_is_clamped_to_the_supported_range() {
    assert_eq!(normalize_compact_width(280), MIN_COMPACT_WIDTH);
    assert_eq!(normalize_compact_width(560), 560);
    assert_eq!(normalize_compact_width(900), MAX_COMPACT_WIDTH);
}

#[test]
fn expanded_overlay_sits_above_bottom_taskbar_and_unknown_edges_are_refused() {
    let taskbar = TaskbarBounds {
        left: 100,
        top: 1040,
        right: 1920,
        bottom: 1080,
        edge: ABE_BOTTOM,
        window_handle: 0,
    };
    assert_eq!(
        placement_for_taskbar(taskbar, EXPANDED_HEIGHT, false),
        Ok((112, 1040 - 178 - 12))
    );
    let odd = TaskbarBounds { edge: 7, ..taskbar };
    assert_eq!(
        placement_for_taskbar(odd, COMPACT_HEIGHT, true),
        Err("unsupported taskbar edge: 7".to_owned())
    );
}
