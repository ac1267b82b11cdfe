use agent_spy::cli::{ButtonChoice, CliArgs, CliCommand, ModifierChoice, OnOff, ScrollAxisChoice};

#[test]
fn parse_list_windows_command() {
    let args = CliArgs::try_parse_from(&["agent-spy", "--cli", "list-windows", "--search", "firefox"]).unwrap();

    match args.command.unwrap() {
        CliCommand::ListWindows { search } => {
            assert_eq!(search.as_deref(), Some("firefox"));
        }
        _ => panic!("expected list-windows command"),
    }
}

#[test]
fn parse_always_on_top_command() {
    let args = CliArgs::try_parse_from(&["agent-spy", "--cli", "always-on-top", "42", "on"]).unwrap();

    match args.command.unwrap() {
        CliCommand::AlwaysOnTop { id, state } => {
            assert_eq!(id, 42);
            assert!(matches!(state, OnOff::On));
        }
        _ => panic!("expected always-on-top command"),
    }
}

#[test]
fn parse_click_button_default() {
    let args = CliArgs::try_parse_from(&["agent-spy", "--cli", "click", "1", "2"]).unwrap();

    match args.command.unwrap() {
        CliCommand::Click { button, .. } => {
            assert!(matches!(button, ButtonChoice::Left));
        }
        _ => panic!("expected click command"),
    }
}

#[test]
fn parse_version_command() {
    let args = CliArgs::try_parse_from(&["agent-spy", "--cli", "version"]).unwrap();

    match args.command.unwrap() {
        CliCommand::Version => {}
        _ => panic!("expected version command"),
    }
}

#[test]
fn parse_key_tap_with_modifiers() {
    let args = CliArgs::try_parse_from(&[
        "agent-spy",
        "--cli",
        "key-tap",
        "a",
        "--mod",
        "shift",
        "--mod",
        "control",
    ])
    .unwrap();

    match args.command.unwrap() {
        CliCommand::KeyTap { key, modifiers } => {
            assert_eq!(key, "a");
            assert_eq!(modifiers, vec![ModifierChoice::Shift, ModifierChoice::Control]);
        }
        _ => panic!("expected key-tap command"),
    }
}

#[test]
fn parse_scroll_defaults_to_vertical() {
    let args = CliArgs::try_parse_from(&["agent-spy", "--cli", "scroll", "3"]).unwrap();

    match args.command.unwrap() {
        CliCommand::Scroll { amount, axis } => {
            assert_eq!(amount, 3);
            assert!(matches!(axis, ScrollAxisChoice::Vertical));
        }
        _ => panic!("expected scroll command"),
    }
}
