use agent_spy::input::{KeyArg, KeyDirection, MouseButtonArg, NamedKey, ScrollAxisArg};
use agent_spy::xtest::{button_events, button_number, key_events, keycode_count, keycode_table, pointer_target, route_key, scroll_clicks, FakeInput, KeyRoute, ScrollClicks};

#[test]
fn keycode_range_counts() {
    assert_eq!(keycode_count(8, 255), 248);
    assert_eq!(keycode_count(10, 5), 1);
    assert_eq!(keycode_count(0, 255), 255);
}

#[test]
fn keycode_table_keeps_first_keycode() {
    let table = keycode_table(8, 3, 2, &vec![0x61, 0, 0x62, 0x61, 0xff0d, 0]);
    assert_eq!(table.len(), 3);
    assert_eq!(table.get(&0x61), Some(&8));
    assert_eq!(table.get(&0x62), Some(&9));
    assert_eq!(table.get(&0xff0d), Some(&10));
    assert_eq!(table.get(&0), None);
}

#[test]
fn keys_route_to_keycodes_or_fallback() {
    let table = keycode_table(8, 1, 2, &vec![0xff0d, 0x61]);
    assert_eq!(route_key(&table, KeyArg::Named(NamedKey::Return), false), Ok(KeyRoute::Keycode(8)));
    assert_eq!(route_key(&table, KeyArg::Unicode('a'), false), Ok(KeyRoute::Keycode(8)));
    assert_eq!(route_key(&table, KeyArg::Unicode('b'), true), Ok(KeyRoute::Fallback));
    assert_eq!(route_key(&table, KeyArg::Unicode('b'), false).unwrap_err(), "No keycode mapping found for key");
}

#[test]
fn fake_input_events() {
    assert_eq!(key_events(38, KeyDirection::Click), vec![FakeInput { kind: 2, detail: 38 }, FakeInput { kind: 3, detail: 38 }]);
    assert_eq!(key_events(38, KeyDirection::Release), vec![FakeInput { kind: 3, detail: 38 }]);
    assert_eq!(button_number(MouseButtonArg::Middle), 2);
    assert_eq!(button_events(MouseButtonArg::Right, KeyDirection::Press), vec![FakeInput { kind: 4, detail: 3 }]);
}

#[test]
fn scroll_direction_and_count() {
    assert_eq!(scroll_clicks(3, ScrollAxisArg::Vertical), ScrollClicks { button: 5, count: 3 });
    assert_eq!(scroll_clicks(-2, ScrollAxisArg::Horizontal), ScrollClicks { button: 6, count: 2 });
    assert_eq!(scroll_clicks(i32::MIN, ScrollAxisArg::Vertical), ScrollClicks { button: 4, count: 2147483648 });
    assert_eq!(scroll_clicks(0, ScrollAxisArg::Horizontal), ScrollClicks { button: 7, count: 0 });
}

#[test]
fn pointer_targets_are_clamped() {
    assert_eq!(pointer_target(40000, -40000, None), (i16::MAX, i16::MIN));
    assert_eq!(pointer_target(10, -5, Some((100, 200))), (110, 195));
    assert_eq!(pointer_target(i32::MAX, 0, Some((10, 0))), (i16::MAX, 0));
}
