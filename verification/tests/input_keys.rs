use agent_spy::input::{KeyArg, ModifierKey, ModifierState, MouseButtonArg, NamedKey};

#[test]
fn parse_mouse_button_values() {
    assert_eq!(MouseButtonArg::parse("left").unwrap(), MouseButtonArg::Left);
    assert_eq!(MouseButtonArg::parse("RIGHT").unwrap(), MouseButtonArg::Right);
    assert_eq!(MouseButtonArg::parse("Middle").unwrap(), MouseButtonArg::Middle);
}

#[test]
fn reject_invalid_mouse_button() {
    assert!(MouseButtonArg::parse("primary").is_err());
}

#[test]
fn parse_named_key() {
    assert_eq!(KeyArg::parse("enter").unwrap(), KeyArg::Named(NamedKey::Return));
    assert_eq!(KeyArg::parse("A").unwrap(), KeyArg::Unicode('A'));
}

#[test]
fn reject_invalid_named_key() {
    assert!(KeyArg::parse("unknown-key").is_err());
    assert!(KeyArg::parse("ab").is_err());
}

#[test]
fn modifier_state_tracks_flags() {
    let mut state = ModifierState::default();
    state.set(ModifierKey::Shift, true);
    assert!(state.is_pressed(ModifierKey::Shift));
    state.set(ModifierKey::Shift, false);
    assert!(!state.is_pressed(ModifierKey::Shift));
}
