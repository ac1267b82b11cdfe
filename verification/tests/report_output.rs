use agent_spy::cli::{format_window, format_windows, ButtonChoice, CliArgs, CliCommand, CliError, OnOff, ScrollAxisChoice};
use agent_spy::input::ModifierState;
use agent_spy::platform::{PermissionStatus, WindowInfo};
use agent_spy::report::{action_message, cursor_report, help_text, permissions_report, point_report, start_run, version_report, RunStart};

fn window() -> WindowInfo {
    WindowInfo {
        id: 12,
        title: "Say \"hi\"".to_string(),
        pid: 345,
        x: -5,
        y: 7,
        width: 640,
        height: 480,
        is_minimized: false,
        is_maximized: true,
    }
}

#[test]
fn runs_start_from_the_arguments() {
    match start_run(&["--cli", "focus", "5"]) {
        RunStart::Execute(CliCommand::Focus { id }) => assert_eq!(id, 5),
        other => panic!("unexpected {:?}", other),
    }
    match start_run(&["focus", "5"]) {
        RunStart::Fail(m) => assert_eq!(m, "Missing --cli flag"),
        other => panic!("unexpected {:?}", other),
    }
    match start_run(&["--cli"]) {
        RunStart::Print(t) => assert_eq!(t, help_text()),
        other => panic!("unexpected {:?}", other),
    }
    match start_run(&["--cli", "--help"]) {
        RunStart::Print(t) => assert!(t.starts_with("Usage: agent-spy")),
        other => panic!("unexpected {:?}", other),
    }
    match start_run(&["--cli", "teleport"]) {
        RunStart::Fail(m) => assert_eq!(
            m,
            "error: unrecognized subcommand 'teleport'\n\nUsage: agent-spy [OPTIONS] [COMMAND]\n\nFor more information, try '--help'.\n"
        ),
        other => panic!("unexpected {:?}", other),
    }
}

#[test]
fn parse_errors_name_the_argument() {
    assert!(matches!(CliArgs::try_parse_from(&["agent-spy", "--cli", "focus"]), Err(CliError::MissingArgument(_))));
    assert!(matches!(CliArgs::try_parse_from(&["agent-spy", "--cli", "focus", "x"]), Err(CliError::InvalidValue(_))));
    assert!(matches!(CliArgs::try_parse_from(&["agent-spy", "--cli", "focus", "1", "2"]), Err(CliError::UnexpectedArgument(_))));
    assert!(matches!(CliArgs::try_parse_from(&["agent-spy", "--cli", "--cli"]), Err(CliError::RepeatedArgument(_))));
    assert!(matches!(CliArgs::try_parse_from(&["agent-spy", "--cli", "scroll", "1", "--axis"]), Err(CliError::MissingValue(_))));
    assert!(matches!(CliArgs::try_parse_from(&["agent-spy", "--cli=yes"]), Err(CliError::UnexpectedValue(_))));
    assert!(matches!(CliArgs::try_parse_from(&["agent-spy", "-h"]), Err(CliError::Help)));
    assert_eq!(
        CliError::InvalidValue("x".to_string()).message(),
        "error: invalid value 'x'\n\nFor more information, try '--help'.\n"
    );
    assert!(help_text().contains("\n  key-tap\n"));
    assert!(help_text().ends_with("Options:\n      --cli\n  -h, --help  Print help\n"));
}

#[test]
fn parse_values_and_options() {
    let args = CliArgs::try_parse_from(&["agent-spy", "--cli", "drag", "1", "--button=right", "+3", "--", "-2", "4"]).unwrap();
    match args.command.unwrap() {
        CliCommand::Drag { start_x, start_y, end_x, end_y, button } => {
            assert_eq!((start_x, start_y, end_x, end_y), (1, 3, -2, 4));
            assert!(matches!(button, ButtonChoice::Right));
        }
        _ => panic!("expected drag"),
    }
    let args = CliArgs::try_parse_from(&["agent-spy", "--cli", "resize", "1", "800", "600"]).unwrap();
    assert_eq!(args.command, Some(CliCommand::Resize { id: 1, width: 800, height: 600 }));
    assert!(CliArgs::try_parse_from(&["agent-spy", "--cli", "move", "1", "99999999999", "0"]).is_err());
    assert!(matches!(
        CliArgs::try_parse_from(&["agent-spy", "--cli", "move", "1", "-2", "0"]),
        Err(CliError::UnexpectedArgument(a)) if a == "-2"
    ));
}

#[test]
fn action_reports() {
    let m = |c: CliCommand| action_message(&c).unwrap();
    assert_eq!(m(CliCommand::Move { id: 3, x: 1, y: -2 }), "Moved window 3 to (1, -2).");
    assert_eq!(m(CliCommand::Resize { id: 3, width: 800, height: 600 }), "Resized window 3 to 800x600.");
    assert_eq!(m(CliCommand::AlwaysOnTop { id: 4, state: OnOff::Off }), "Always-on-top disabled for window 4.");
    assert_eq!(m(CliCommand::Drag { start_x: 1, start_y: 2, end_x: 3, end_y: 4, button: ButtonChoice::Middle }), "Dragged middle mouse button from (1, 2) to (3, 4).");
    assert_eq!(m(CliCommand::Scroll { amount: -3, axis: ScrollAxisChoice::Horizontal }), "Scrolled horizontally -3.");
    assert_eq!(m(CliCommand::CaptureWindow { id: 2, output: "shot.png".to_string() }), "Captured window 2 to shot.png.");
    assert_eq!(m(CliCommand::KeyTap { key: "a".to_string(), modifiers: vec![] }), "Tapped key.");
    assert!(action_message(&CliCommand::CursorPosition).is_none());
    assert!(action_message(&CliCommand::Version).is_none());
}

#[test]
fn query_reports() {
    assert_eq!(cursor_report(-1, 20), "-1 20");
    assert_eq!(cursor_report(i32::MIN, 0), "-2147483648 0");
    assert_eq!(cursor_report(i32::MAX, 1090), "2147483647 1090");
    assert_eq!(point_report(&None), "No window found at that point.");
    assert_eq!(version_report("1.2.3"), "agent-spy 1.2.3");
    assert_eq!(
        format_window(&window()),
        "id=12\npid=345\ntitle=Say \"hi\"\nx=-5\ny=7\nwidth=640\nheight=480\nminimized=false\nmaximized=true"
    );
    assert_eq!(point_report(&Some(window())), format_window(&window()));
    assert_eq!(
        format_windows(&[window(), window()]),
        "id=12 pid=345 title=\"Say \\\"hi\\\"\" pos=(-5, 7) size=640x480 minimized=false maximized=true\nid=12 pid=345 title=\"Say \\\"hi\\\"\" pos=(-5, 7) size=640x480 minimized=false maximized=true"
    );
    assert_eq!(format_windows(&[]), "No windows found.");
    let mut big = window();
    big.id = u64::MAX;
    big.pid = 0;
    assert!(format_window(&big).starts_with("id=18446744073709551615\npid=0\n"));
}

#[test]
fn permission_report_lines() {
    let p = PermissionStatus { screen_capture: false, accessibility: true, input_simulation: false, cursor_tracking: false };
    let m = ModifierState { shift: true, control: false, alt: false, meta: false };
    assert_eq!(
        permissions_report(&p, "enigo", m),
        "screen_capture=false\naccessibility=true\ninput_simulation=false\ncursor_tracking=false\ninput_backend=enigo\nmod_shift=true\nmod_control=false\nmod_alt=false\nmod_meta=false\nsession_supported=true"
    );
    let none = PermissionStatus::default();
    assert!(permissions_report(&none, "unavailable", ModifierState::default()).ends_with("session_supported=false"));
}
