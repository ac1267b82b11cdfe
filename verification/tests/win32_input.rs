use agent_spy::win32::{check_injected, encode_utf16, key_lparam, needs_key_scan, unicode_key_events, utf16_null, utf16_unit_messages, KeyMessage, UnicodeKeyEvent};

#[test]
fn utf16_encoding_uses_surrogate_pairs() {
    assert_eq!(encode_utf16("a\u{1F600}é"), vec![0x61, 0xD83D, 0xDE00, 0xE9]);
    assert_eq!(encode_utf16("a\u{1F600}é"), "a\u{1F600}é".encode_utf16().collect::<Vec<u16>>());
    assert_eq!(utf16_null("Edit"), vec![0x45, 0x64, 0x69, 0x74, 0]);
    assert!(encode_utf16("").is_empty());
}

#[test]
fn unicode_events_press_then_release() {
    let events = unicode_key_events("hi");
    assert_eq!(
        events,
        vec![
            UnicodeKeyEvent { unit: 0x68, key_up: false },
            UnicodeKeyEvent { unit: 0x68, key_up: true },
            UnicodeKeyEvent { unit: 0x69, key_up: false },
            UnicodeKeyEvent { unit: 0x69, key_up: true },
        ]
    );
}

#[test]
fn injection_must_be_complete() {
    assert!(check_injected(4, 4).is_ok());
    assert_eq!(check_injected(3, 4).unwrap_err(), "Windows SendInput failed to inject full text.");
}

#[test]
fn key_message_lparams() {
    assert_eq!(key_lparam(0x1e, false), 0x001e_0001);
    assert_eq!(key_lparam(0x1e, true), 0xC01e_0001);
    assert_eq!(key_lparam(0x1_0003, false), 0x0003_0001);
}

#[test]
fn unit_messages_follow_the_layout() {
    assert!(needs_key_scan(0x41));
    assert!(!needs_key_scan(0xE9));
    assert_eq!(
        utf16_unit_messages(0x41, Some(0x0141)),
        vec![KeyMessage::KeyDown(0x10), KeyMessage::KeyDown(0x41), KeyMessage::Char(0x41), KeyMessage::KeyUp(0x41), KeyMessage::KeyUp(0x10)]
    );
    assert_eq!(
        utf16_unit_messages(0x61, Some(0x0041)),
        vec![KeyMessage::KeyDown(0x41), KeyMessage::Char(0x61), KeyMessage::KeyUp(0x41)]
    );
    assert_eq!(utf16_unit_messages(0x7e, Some(-1)), vec![KeyMessage::Char(0x7e)]);
    assert_eq!(utf16_unit_messages(0xE9, None), vec![KeyMessage::Char(0xE9)]);
}
