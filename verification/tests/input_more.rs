use agent_spy::input::{key_tap_plan, keysym_for_key, track_button, track_key, ButtonState, InputError, KeyArg, KeyDirection, KeyEvent, ModifierKey, ModifierState, MouseButtonArg, NamedKey};

#[test]
fn key_tap_presses_only_missing_modifiers() {
    let state = ModifierState { shift: true, control: false, alt: false, meta: false };
    let plan = key_tap_plan(state, KeyArg::Unicode('v'), &[ModifierKey::Shift, ModifierKey::Control, ModifierKey::Control]);
    assert_eq!(
        plan,
        vec![
            KeyEvent { key: KeyArg::Named(NamedKey::Control), direction: KeyDirection::Press },
            KeyEvent { key: KeyArg::Unicode('v'), direction: KeyDirection::Click },
            KeyEvent { key: KeyArg::Named(NamedKey::Control), direction: KeyDirection::Release },
        ]
    );
    let mut replayed = state;
    for e in &plan {
        track_key(&mut replayed, e.key, e.direction);
    }
    assert_eq!(replayed, state);
}

#[test]
fn keysyms_of_keys() {
    assert_eq!(keysym_for_key(KeyArg::Named(NamedKey::Return)), 0xff0d);
    assert_eq!(keysym_for_key(KeyArg::Unicode('a')), 0x61);
    assert_eq!(keysym_for_key(KeyArg::Unicode('é')), 0xe9);
    assert_eq!(keysym_for_key(KeyArg::Unicode('€')), 0x0100_20ac);
}

#[test]
fn tracking_keys_and_buttons() {
    let mut m = ModifierState::default();
    track_key(&mut m, KeyArg::Named(NamedKey::Alt), KeyDirection::Press);
    assert!(m.is_pressed(ModifierKey::Alt));
    track_key(&mut m, KeyArg::Named(NamedKey::Alt), KeyDirection::Click);
    assert!(!m.is_pressed(ModifierKey::Alt));
    track_key(&mut m, KeyArg::Unicode('x'), KeyDirection::Press);
    assert_eq!(m, ModifierState::default());
    let mut b = ButtonState::default();
    track_button(&mut b, MouseButtonArg::Left, KeyDirection::Press);
    assert!(b.left);
    track_button(&mut b, MouseButtonArg::Left, KeyDirection::Release);
    assert!(!b.left);
}

#[test]
fn key_names_and_errors() {
    assert_eq!(KeyArg::parse("  Esc ").unwrap(), KeyArg::Named(NamedKey::Escape));
    assert_eq!(KeyArg::parse("ctrl").unwrap(), KeyArg::Named(NamedKey::Control));
    assert!(matches!(KeyArg::parse("   "), Err(InputError::EmptyKey)));
    assert_eq!(KeyArg::parse("").unwrap_err().message(), "Key cannot be empty.");
    assert_eq!(
        KeyArg::parse("hyper").unwrap_err().message(),
        "Unsupported key: hyper. Use a named key like 'enter' or a single character."
    );
    assert_eq!(
        MouseButtonArg::parse("primary").unwrap_err().message(),
        "Invalid mouse button: primary. Use left, right, or middle."
    );
    assert_eq!(KeyArg::parse("shift").unwrap().modifier(), Some(ModifierKey::Shift));
    assert_eq!(KeyArg::parse("q").unwrap().modifier(), None);
}
