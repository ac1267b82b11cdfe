use agent_spy::platform::{filter_windows, find_window, sat_add_i32, sat_mul_u32, window_at, PermissionStatus, WindowInfo};
use agent_spy::session::{above_state_message, window_from_listing, x11_window_id, LinuxPlatform, MacPlatform, WindowsPlatform};

fn window(id: u64, title: &str, x: i32, y: i32, width: u32, height: u32) -> WindowInfo {
    WindowInfo {
        id,
        title: title.to_string(),
        pid: 100 + id as u32,
        x,
        y,
        width,
        height,
        is_minimized: false,
        is_maximized: false,
    }
}

#[test]
fn window_at_picks_the_smallest_holding_window() {
    let ws = vec![window(1, "Desktop", 0, 0, 1000, 800), window(2, "Dialog", 100, 100, 200, 100), window(3, "Other", 500, 500, 10, 10)];
    assert_eq!(window_at(&ws, 150, 150).map(|w| w.id), Some(2));
    assert_eq!(window_at(&ws, 10, 10).map(|w| w.id), Some(1));
    assert!(window_at(&ws, 2000, 10).is_none());
}

#[test]
fn window_at_keeps_the_first_of_equal_sizes() {
    let ws = vec![window(7, "A", 0, 0, 50, 50), window(8, "B", 10, 10, 50, 50)];
    assert_eq!(window_at(&ws, 20, 20).map(|w| w.id), Some(7));
}

#[test]
fn search_ignores_ascii_case_and_blank_queries() {
    let ws = vec![window(1, "Mozilla Firefox", 0, 0, 10, 10), window(2, "Terminal", 0, 0, 10, 10)];
    let found = filter_windows(ws.clone(), Some("  FIREfox "));
    assert_eq!(found.iter().map(|w| w.id).collect::<Vec<_>>(), vec![1]);
    assert_eq!(filter_windows(ws.clone(), Some("   ")).len(), 2);
    assert_eq!(filter_windows(ws.clone(), None).len(), 2);
    assert!(filter_windows(ws, Some("editor")).is_empty());
}

#[test]
fn find_window_by_id() {
    let ws = vec![window(1, "A", 0, 0, 10, 10), window(2, "B", 0, 0, 10, 10)];
    assert_eq!(find_window(&ws, 2).map(|w| w.title), Some("B".to_string()));
    assert!(find_window(&ws, 3).is_none());
}

#[test]
fn saturating_arithmetic() {
    assert_eq!(sat_add_i32(i32::MAX, 5), i32::MAX);
    assert_eq!(sat_add_i32(i32::MIN, -5), i32::MIN);
    assert_eq!(sat_add_i32(3, -5), -2);
    assert_eq!(sat_mul_u32(70000, 70000), u32::MAX);
    assert_eq!(sat_mul_u32(300, 200), 60000);
}

#[test]
fn wayland_sessions_are_detected_and_refused() {
    let p = LinuxPlatform::new(false, Some("Wayland"));
    assert!(p.is_wayland());
    assert_eq!(
        p.ensure_supported_session().unwrap_err(),
        "Wayland sessions are not supported. Please use an X11 session."
    );
    let perms = p.check_permissions(true, true);
    assert!(!perms.screen_capture && !perms.accessibility && !perms.input_simulation && !perms.cursor_tracking);
    assert_eq!(p.cursor_position(Some((1, 2))), None);
    assert!(LinuxPlatform::new(true, None).is_wayland());
}

#[test]
fn x11_sessions_report_their_features() {
    let p = LinuxPlatform::new(false, Some("x11"));
    assert!(!p.is_wayland());
    assert!(p.ensure_supported_session().is_ok());
    let perms = p.check_permissions(false, true);
    assert_eq!(
        perms,
        PermissionStatus { screen_capture: false, accessibility: true, input_simulation: true, cursor_tracking: true }
    );
    assert_eq!(p.cursor_position(Some((1, 2))), Some((1, 2)));
    assert!(!LinuxPlatform::new(false, None).is_wayland());
}

#[test]
fn x11_window_ids_are_32_bits() {
    assert_eq!(x11_window_id(42), Ok(42));
    assert_eq!(x11_window_id(u32::MAX as u64), Ok(u32::MAX));
    assert_eq!(x11_window_id(u32::MAX as u64 + 1), Err("Invalid window id".to_string()));
}

#[test]
fn window_listing_clamps_negative_sizes() {
    let w = window_from_listing(9, "Term".to_string(), 7, -3, 4, -10, 20, true);
    assert_eq!((w.width, w.height), (0, 20));
    assert_eq!((w.x, w.y), (-3, 4));
    assert!(!w.is_minimized);
    assert!(w.is_maximized);
}

#[test]
fn above_state_request_layout() {
    let ev = above_state_message(0x0102_0304, 300, 301, true);
    assert_eq!(ev.len(), 32);
    assert_eq!(&ev[0..4], &[33, 32, 0, 0]);
    assert_eq!(&ev[4..8], &0x0102_0304u32.to_ne_bytes());
    assert_eq!(&ev[8..12], &300u32.to_ne_bytes());
    assert_eq!(&ev[12..16], &1u32.to_ne_bytes());
    assert_eq!(&ev[16..20], &301u32.to_ne_bytes());
    assert_eq!(&ev[20..24], &0u32.to_ne_bytes());
    assert_eq!(&ev[24..28], &1u32.to_ne_bytes());
    assert_eq!(&ev[28..32], &0u32.to_ne_bytes());
    let off = above_state_message(5, 300, 301, false);
    assert_eq!(&off[12..16], &0u32.to_ne_bytes());
}

#[test]
fn mac_and_windows_features() {
    let mac = MacPlatform::new();
    let p = mac.check_permissions(false, true);
    assert_eq!(
        p,
        PermissionStatus { screen_capture: true, accessibility: false, input_simulation: false, cursor_tracking: true }
    );
    assert!(mac.set_always_on_top(1, true).is_err());
    let win = WindowsPlatform::new();
    assert!(win.check_permissions().any_available());
}
