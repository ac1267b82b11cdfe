use agent_spy::input::MouseButtonArg;
use agent_spy::message::{AppSection, MouseButtonChoice};
use agent_spy::platform::{PermissionStatus, WindowInfo};
use agent_spy::spy::{guard_action, required_capability, required_permission_tooltip, AgentSpy, Capability, Effect, Message, StatusTone};

fn all() -> PermissionStatus {
    PermissionStatus { screen_capture: true, accessibility: true, input_simulation: true, cursor_tracking: true }
}

fn window(id: u64, title: &str) -> WindowInfo {
    WindowInfo { id, title: title.to_string(), pid: 9, x: 10, y: 20, width: 300, height: 0, is_minimized: false, is_maximized: false }
}

fn spy() -> AgentSpy {
    AgentSpy::new(all(), Ok(vec![window(1, "Editor"), window(2, "Mozilla Firefox"), window(3, "")]))
}

#[test]
fn startup_status_names_missing_features() {
    let s = spy();
    assert_eq!(s.status(), "Ready.");
    assert_eq!(s.status_tone(), StatusTone::Success);
    let p = PermissionStatus { screen_capture: false, accessibility: true, input_simulation: false, cursor_tracking: true };
    let s = AgentSpy::new(p, Err("no X".to_string()));
    assert_eq!(s.status(), "Startup checks: unavailable features: screen capture, input simulation.");
    assert_eq!(s.status_tone(), StatusTone::Warning);
    assert_eq!(s.status_prefix(), "⚠");
}

#[test]
fn selecting_a_window_fills_the_card() {
    let mut s = spy();
    assert!(matches!(s.update(Message::SelectWindow(1)), Effect::Nothing));
    assert_eq!(s.selected_window_id(), Some(1));
    assert_eq!(s.status(), "Selected window: Editor");
    let card = s.selected_window_card().unwrap();
    assert_eq!(card[0], "Title: Editor");
    assert_eq!(card[1], "ID: 1 | PID: 9");
    assert_eq!(card[2], "Position: 10, 20");
    assert_eq!(card[3], "Size: 300 x 0");
    assert_eq!(card[4], "State: minimized=false maximized=false");
}

#[test]
fn moving_reads_the_fields() {
    let mut s = spy();
    s.update(Message::SelectWindow(2));
    match s.update(Message::ApplyMove) {
        Effect::Move { id, x, y } => assert_eq!((id, x, y), (2, 10, 20)),
        other => panic!("unexpected {:?}", other),
    }
    s.update(Message::MoveXChanged(" abc".to_string()));
    assert!(matches!(s.update(Message::ApplyMove), Effect::Nothing));
    assert_eq!(s.status(), "Invalid X:  abc");
    assert_eq!(s.status_tone(), StatusTone::Error);
    s.update(Message::SizeWChanged(" 640 ".to_string()));
    s.update(Message::SizeHChanged("-1".to_string()));
    assert!(matches!(s.update(Message::ApplySize), Effect::Nothing));
    assert_eq!(s.status(), "Invalid height: -1");
    s.update(Message::SizeHChanged("+480".to_string()));
    assert!(matches!(s.update(Message::ApplySize), Effect::Resize { id: 2, width: 640, height: 480 }));
}

#[test]
fn a_refused_always_on_top_is_undone() {
    let mut s = spy();
    assert!(matches!(s.update(Message::ToggleAlwaysOnTop), Effect::Nothing));
    s.update(Message::SelectWindow(1));
    assert!(matches!(s.update(Message::ToggleAlwaysOnTop), Effect::SetAlwaysOnTop { id: 1, enabled: true }));
    assert!(s.always_on_top());
    s.always_on_top_done(Err("denied".to_string()));
    assert!(!s.always_on_top());
    assert_eq!(s.status(), "Always-on-top failed: denied");
    s.update(Message::ToggleAlwaysOnTop);
    s.always_on_top_done(Ok(()));
    assert!(s.always_on_top());
    assert_eq!(s.status(), "Always-on-top enabled.");
}

#[test]
fn refresh_drops_a_vanished_selection() {
    let mut s = spy();
    s.update(Message::SelectWindow(3));
    assert!(matches!(s.update(Message::RefreshWindows), Effect::ListWindows { announce: true }));
    s.windows_listed(Ok(vec![window(1, "Editor")]), true);
    assert_eq!(s.selected_window_id(), None);
    assert_eq!(s.status(), "Window list refreshed.");
    s.windows_listed(Err("gone".to_string()), false);
    assert_eq!(s.status(), "Failed to list windows: gone");
}

#[test]
fn tracking_ticks_read_the_cursor() {
    let mut s = spy();
    assert!(matches!(s.update(Message::Tick), Effect::ListWindows { announce: false }));
    assert_eq!(s.tick_interval_ms(), 2000);
    s.update(Message::ToggleTrackMouse);
    assert!(s.track_mouse());
    assert_eq!(s.status(), "Tracking mouse enabled.");
    assert_eq!(s.tick_interval_ms(), 100);
    assert_eq!(s.track_button_label(), "Stop Tracking");
    assert!(matches!(s.update(Message::Tick), Effect::ReadCursor));
    assert!(matches!(s.cursor_read(Some((15, 25))), Effect::LookupWindow { x: 15, y: 25 }));
    assert_eq!(s.cursor_label(), "Cursor: 15, 25");
    s.window_found(Ok(Some(window(2, "Mozilla Firefox"))));
    assert_eq!(s.selected_window_id(), Some(2));
    s.window_found(Err("lost".to_string()));
    assert_eq!(s.status(), "Window lookup failed: lost");
    assert!(matches!(s.cursor_read(None), Effect::Nothing));
    assert_eq!(s.cursor_label(), "Cursor: unknown");
}

#[test]
fn text_goes_through_focus_when_a_window_is_selected() {
    let mut s = spy();
    s.update(Message::InputTextChanged("   ".to_string()));
    assert!(matches!(s.update(Message::SendInputText), Effect::Nothing));
    assert_eq!(s.status(), "Enter text before sending.");
    s.update(Message::InputTextChanged("hello".to_string()));
    match s.update(Message::SendInputText) {
        Effect::SendText { text } => assert_eq!(text, "hello"),
        other => panic!("unexpected {:?}", other),
    }
    s.update(Message::SelectWindow(1));
    assert!(matches!(s.update(Message::SendInputText), Effect::FocusForText { id: 1 }));
    match s.text_focus_done(Ok(())) {
        Effect::SendText { text } => assert_eq!(text, "hello"),
        other => panic!("unexpected {:?}", other),
    }
    assert!(matches!(s.text_focus_done(Err("busy".to_string())), Effect::Nothing));
    assert_eq!(s.status(), "Focus failed before text input: busy");
    s.text_sent(Ok(()));
    assert_eq!(s.status(), "Sent keyboard text.");
}

#[test]
fn clicks_use_the_chosen_button() {
    let mut s = spy();
    s.update(Message::ClickXChanged("5".to_string()));
    s.update(Message::ClickYChanged("x".to_string()));
    assert!(matches!(s.update(Message::SendMouseClick), Effect::Nothing));
    assert_eq!(s.status(), "Invalid click Y: x");
    s.update(Message::ClickYChanged("-6".to_string()));
    s.update(Message::SelectMouseButton(MouseButtonChoice::Right));
    assert!(matches!(s.update(Message::SendMouseClick), Effect::Click { x: 5, y: -6, button: MouseButtonArg::Right }));
    s.click_done(5, -6, Ok(()));
    assert_eq!(s.status(), "Mouse click sent at (5, -6) with Right button.");
    assert!(matches!(s.update(Message::MoveMouseToPoint), Effect::MoveMouse { x: 5, y: -6 }));
    s.mouse_moved(5, -6, Err("no".to_string()));
    assert_eq!(s.status(), "Mouse move failed: no");
    assert_eq!(s.button_choice_tab_label(MouseButtonChoice::Right), "● Right");
    assert_eq!(s.button_choice_tab_label(MouseButtonChoice::Left), "Left");
}

#[test]
fn captures_need_a_listed_selection() {
    let mut s = spy();
    assert!(matches!(s.update(Message::CaptureSelectedWindow), Effect::Nothing));
    assert_eq!(s.status(), "Select a window first.");
    s.update(Message::SelectWindow(1));
    assert!(matches!(s.update(Message::CaptureSelectedWindow), Effect::CaptureWindow { x: 10, y: 20, width: 300, height: 1 }));
    s.update(Message::SelectWindow(99));
    assert!(matches!(s.update(Message::CaptureSelectedWindow), Effect::Nothing));
    assert_eq!(s.status(), "Selected window no longer available.");
    assert!(matches!(s.update(Message::CaptureScreen), Effect::CaptureScreen { near: None }));
    s.screen_captured(Err("denied".to_string()));
    assert_eq!(s.status(), "Screen capture failed: denied");
}

#[test]
fn missing_features_disable_actions() {
    let mut s = AgentSpy::new(PermissionStatus::default(), Ok(vec![window(1, "Editor")]));
    s.update(Message::SelectWindow(1));
    assert!(matches!(s.update(Message::FocusSelected), Effect::Nothing));
    assert!(matches!(s.update(Message::ApplyMove), Effect::Nothing));
    assert!(matches!(s.update(Message::CaptureScreen), Effect::Nothing));
    assert!(matches!(s.update(Message::SendMouseClick), Effect::Nothing));
    s.update(Message::ToggleTrackMouse);
    assert!(!s.track_mouse());
    assert_eq!(required_permission_tooltip(false, "Screen capture is unavailable in this session."), Some("Screen capture is unavailable in this session."));
    assert_eq!(required_permission_tooltip(true, "x"), None);
    assert_eq!(s.permission_badges(), vec!["✕ screen", "✕ window", "✕ input", "✕ cursor"]);
}

#[test]
fn window_list_filters_and_marks_selection() {
    let mut s = spy();
    s.update(Message::SelectWindow(2));
    let entries = s.window_entries();
    assert_eq!(
        entries,
        vec![
            (1, "  Editor [300x0 @ 10,20]".to_string()),
            (2, "● Mozilla Firefox [300x0 @ 10,20]".to_string()),
            (3, "  #3 [300x0 @ 10,20]".to_string()),
        ]
    );
    s.update(Message::SearchChanged("FIRE".to_string()));
    assert_eq!(s.window_entries().len(), 1);
    s.update(Message::SearchChanged("  ".to_string()));
    assert_eq!(s.window_entries().len(), 3);
}

#[test]
fn sections_and_status_clearing() {
    let mut s = spy();
    assert_eq!(s.active_section(), AppSection::Overview);
    s.update(Message::SelectSection(AppSection::Capture));
    assert_eq!(s.active_section(), AppSection::Capture);
    assert_eq!(s.section_tab_label(AppSection::Capture), "● Capture");
    assert_eq!(s.section_tab_label(AppSection::Input), "Input");
    s.update(Message::ClearStatus);
    assert_eq!(s.status(), "");
    assert_eq!(s.status_tone(), StatusTone::Info);
    s.update(Message::SelectWindow(1));
    assert!(matches!(s.update(Message::FocusSelected), Effect::Focus { id: 1 }));
    s.focus_done(Ok(()));
    assert_eq!(s.status(), "Focused selected window.");
    assert!(matches!(s.move_done(Ok(())), Effect::ListWindows { announce: false }));
    assert_eq!(s.status(), "Window moved.");
    assert!(matches!(s.resize_done(Err("x".to_string())), Effect::Nothing));
    assert_eq!(s.status(), "Resize failed: x");
}

#[test]
fn section_lists_and_labels() {
    assert_eq!(AppSection::visible_sections(false), &[AppSection::Overview, AppSection::Window, AppSection::Capture, AppSection::Input]);
    assert_eq!(AppSection::visible_sections(true).len(), 5);
    assert_eq!(AppSection::Browser.label(), "Browser");
    assert_eq!(MouseButtonChoice::ALL.iter().map(|b| b.label()).collect::<Vec<_>>(), vec!["Left", "Right", "Middle"]);
}

#[test]
fn buttons_follow_session_capabilities() {
    let none = PermissionStatus::default();
    let (press, tip) = guard_action(none, Message::ApplyMove);
    assert!(press.is_none());
    assert_eq!(tip, Some("Window operations are unavailable in this session."));
    let (press, tip) = guard_action(none, Message::CaptureScreen);
    assert!(press.is_none());
    assert_eq!(tip, Some("Screen capture is unavailable in this session."));
    let (press, tip) = guard_action(none, Message::SendMouseClick);
    assert!(press.is_none());
    assert_eq!(tip, Some("Input simulation is unavailable in this session."));
    let (press, tip) = guard_action(none, Message::ToggleTrackMouse);
    assert!(press.is_none());
    assert_eq!(tip, Some("Cursor tracking is unavailable in this session."));
    let (press, tip) = guard_action(none, Message::RefreshWindows);
    assert!(matches!(press, Some(Message::RefreshWindows)));
    assert_eq!(tip, None);
    let only_capture = PermissionStatus { screen_capture: true, ..PermissionStatus::default() };
    let (press, tip) = guard_action(only_capture, Message::CaptureSelectedWindow);
    assert!(matches!(press, Some(Message::CaptureSelectedWindow)));
    assert_eq!(tip, None);
    let (press, _) = guard_action(all(), Message::FocusSelected);
    assert!(matches!(press, Some(Message::FocusSelected)));
    assert_eq!(required_capability(&Message::SendInputText), Some(Capability::InputSimulation));
    assert_eq!(required_capability(&Message::ToggleAlwaysOnTop), Some(Capability::WindowControl));
    assert_eq!(required_capability(&Message::Tick), None);
}
