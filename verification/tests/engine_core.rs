use agent_spy::engine::{focus_to_restore, paste_modifier, text_delivery, window_capture_area, CaptureArea, Core, InputBackendKind, TextDelivery};
use agent_spy::input::{ModifierKey, ModifierState};
use agent_spy::platform::{PermissionStatus, WindowInfo};

fn perms(all: bool) -> PermissionStatus {
    PermissionStatus { screen_capture: all, accessibility: all, input_simulation: all, cursor_tracking: all }
}

fn window(id: u64, title: &str) -> WindowInfo {
    WindowInfo { id, title: title.to_string(), pid: 1, x: 10, y: 20, width: 0, height: 30, is_minimized: false, is_maximized: false }
}

#[test]
fn input_backend_choice_and_name() {
    assert_eq!(InputBackendKind::select(true, true), Some(InputBackendKind::LinuxX11));
    assert_eq!(InputBackendKind::select(false, true), Some(InputBackendKind::Enigo));
    assert_eq!(InputBackendKind::select(false, false), None);
    let core = Core::new(perms(true), Some(InputBackendKind::LinuxX11));
    assert_eq!(core.input_backend_name(), "linux-x11-xtest");
    let none = Core::new(perms(false), Some(InputBackendKind::Enigo));
    assert_eq!(none.input_backend_name(), "unavailable");
    assert!(!Core::wants_input_backend(&perms(false)));
}

#[test]
fn guards_refuse_missing_features() {
    let core = Core::new(perms(false), None);
    assert_eq!(core.ensure_cursor_tracking().unwrap_err(), "Cursor tracking is unavailable on this session.");
    assert_eq!(core.ensure_window_manipulation().unwrap_err(), "Window manipulation requires accessibility permission.");
    assert_eq!(core.ensure_screen_capture().unwrap_err(), "Screen capture permission is unavailable.");
    assert_eq!(core.input().unwrap_err(), "Input simulation permission is unavailable.");
    let no_backend = Core::new(perms(true), None);
    assert_eq!(no_backend.input().unwrap_err(), "Input simulation backend is unavailable.");
    let ok = Core::new(perms(true), Some(InputBackendKind::Enigo));
    assert_eq!(ok.input(), Ok(InputBackendKind::Enigo));
}

#[test]
fn cursor_position_needs_a_reading() {
    let core = Core::new(perms(true), None);
    assert_eq!(core.cursor_position(Some((4, 5))), Ok((4, 5)));
    assert_eq!(core.cursor_position(None).unwrap_err(), "Could not read cursor position.");
    let off = Core::new(perms(false), None);
    assert_eq!(off.cursor_position(Some((4, 5))).unwrap_err(), "Cursor tracking is unavailable on this session.");
}

#[test]
fn window_info_reports_unknown_ids() {
    let core = Core::new(perms(true), None);
    let ws = vec![window(3, "Three"), window(4, "Four")];
    assert_eq!(core.window_info(&ws, 4).unwrap().title, "Four");
    assert_eq!(core.window_info(&ws, 7).unwrap_err(), "Window not found for id: 7");
    let found = core.list_windows(ws, Some("four"));
    assert_eq!(found.len(), 1);
}

#[test]
fn modifier_state_without_backend_is_released() {
    let held = ModifierState { shift: true, control: false, alt: false, meta: true };
    assert_eq!(Core::new(perms(true), Some(InputBackendKind::Enigo)).modifier_state(held), held);
    assert_eq!(Core::new(perms(true), None).modifier_state(held), ModifierState::default());
}

#[test]
fn text_delivery_routes() {
    assert_eq!(text_delivery("", Some(1), true, true), TextDelivery::Nothing);
    assert_eq!(text_delivery("hi", None, false, false), TextDelivery::Type);
    assert_eq!(text_delivery("hi", None, true, true), TextDelivery::PasteShortcut);
    assert_eq!(text_delivery("hi", Some(9), false, false), TextDelivery::ToWindow(9));
    assert_eq!(text_delivery("hi", Some(9), true, false), TextDelivery::FocusSwapToWindow(9));
    assert_eq!(text_delivery("hi", Some(9), false, true), TextDelivery::PasteToWindow(9));
    assert_eq!(text_delivery("hi", Some(9), true, true), TextDelivery::FocusSwapPaste(9));
}

#[test]
fn focus_swap_and_paste_helpers() {
    assert_eq!(focus_to_restore(Some(3), 9), Some(3));
    assert_eq!(focus_to_restore(Some(9), 9), None);
    assert_eq!(focus_to_restore(None, 9), None);
    assert_eq!(paste_modifier(true), ModifierKey::Meta);
    assert_eq!(paste_modifier(false), ModifierKey::Control);
}

#[test]
fn capture_area_is_relative_and_never_empty() {
    let w = window(1, "A");
    assert_eq!(window_capture_area(&w, 5, -20), CaptureArea { x: 5, y: 40, width: 1, height: 30 });
}
