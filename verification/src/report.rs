//! What the command-line tool answers: how a run starts from its arguments, and
//! the text it prints for each command.
use vstd::prelude::*;

use crate::cli::{
    bool_text, command_view, error_view, format_window, parse_command_line, push_bool, push_i64, push_u64,
    tokens, ButtonChoice, CliArgs, CliCommand, CliError, ModifierChoice, OnOff, ScrollAxisChoice, window_block,
};
use crate::input::ModifierState;
use crate::platform::{PermissionStatus, WindowInfo};
use crate::text::{decimal, owned, push_all};

verus! {

broadcast use vstd::string::group_string_axioms;

/// The usage text of the tool.
pub open spec fn usage_text() -> Seq<char> {
    "Usage: agent-spy [OPTIONS] [COMMAND]\n\nCommands:\n  list-windows\n  window-info\n  window-at-point\n  cursor-position\n  focus\n  move\n  resize\n  always-on-top\n  capture-screen\n  capture-window\n  send-text\n  move-mouse\n  click\n  mouse-down\n  mouse-up\n  drag\n  scroll\n  key-down\n  key-up\n  key-tap\n  check-permissions\n  version\n\nOptions:\n      --cli\n  -h, --help  Print help\n"@
}

pub fn help_text() -> (s: String)
    ensures
        s@ == usage_text(),
{
    owned("Usage: agent-spy [OPTIONS] [COMMAND]\n\nCommands:\n  list-windows\n  window-info\n  window-at-point\n  cursor-position\n  focus\n  move\n  resize\n  always-on-top\n  capture-screen\n  capture-window\n  send-text\n  move-mouse\n  click\n  mouse-down\n  mouse-up\n  drag\n  scroll\n  key-down\n  key-up\n  key-tap\n  check-permissions\n  version\n\nOptions:\n      --cli\n  -h, --help  Print help\n")
}

/// The message of a refused command line.
pub open spec fn error_text(e: CliError<Seq<char>>) -> Seq<char> {
    match e {
        CliError::Help => usage_text(),
        CliError::UnexpectedArgument(a) => "error: unexpected argument '"@ + a + "' found"@ + more_help_text(),
        CliError::UnknownSubcommand(a) => "error: unrecognized subcommand '"@ + a + "'\n\nUsage: agent-spy [OPTIONS] [COMMAND]"@
            + more_help_text(),
        CliError::UnexpectedValue(a) => "error: unexpected value for '"@ + a + "'"@ + more_help_text(),
        CliError::RepeatedArgument(a) => "error: the argument '"@ + a + "' cannot be used multiple times"@
            + more_help_text(),
        CliError::MissingValue(a) => "error: a value is required for '"@ + a + "' but none was supplied"@
            + more_help_text(),
        CliError::InvalidValue(a) => "error: invalid value '"@ + a + "'"@ + more_help_text(),
        CliError::MissingArgument(a) => "error: the following required arguments were not provided: "@ + a
            + more_help_text(),
    }
}

/// The line that closes every refusal, pointing to the help.
pub open spec fn more_help_text() -> Seq<char> {
    "\n\nFor more information, try '--help'.\n"@
}

fn quoted(head: &str, a: &String, tail: &str) -> (s: String)
    ensures
        s@ == head@ + a@ + tail@ + more_help_text(),
{
    let mut s = owned(head);
    push_all(&mut s, a.as_str());
    push_all(&mut s, tail);
    push_all(&mut s, "\n\nFor more information, try '--help'.\n");
    s
}

impl CliError {
    /// The message of the refusal.
    pub fn message(&self) -> (m: String)
        ensures
            m@ == error_text(error_view(*self)),
    {
        match self {
            CliError::Help => help_text(),
            CliError::UnexpectedArgument(a) => quoted("error: unexpected argument '", a, "' found"),
            CliError::UnknownSubcommand(a) => quoted("error: unrecognized subcommand '", a, "'\n\nUsage: agent-spy [OPTIONS] [COMMAND]"),
            CliError::UnexpectedValue(a) => quoted("error: unexpected value for '", a, "'"),
            CliError::RepeatedArgument(a) => quoted("error: the argument '", a, "' cannot be used multiple times"),
            CliError::MissingValue(a) => quoted("error: a value is required for '", a, "' but none was supplied"),
            CliError::InvalidValue(a) => quoted("error: invalid value '", a, "'"),
            CliError::MissingArgument(a) => {
                let mut s = owned("error: the following required arguments were not provided: ");
                push_all(&mut s, a.as_str());
                push_all(&mut s, "\n\nFor more information, try '--help'.\n");
                s
            },
        }
    }
}

pub open spec fn missing_cli_flag() -> Seq<char> {
    "Missing --cli flag"@
}

/// How a run of the command-line tool starts.
#[derive(Debug)]
pub enum RunStart {
    /// Print this text and succeed.
    Print(String),
    /// Fail with this message.
    Fail(String),
    /// Carry out this command.
    Execute(CliCommand),
}

/// The command line as the parser sees it: the program's name, then the
/// arguments.
pub open spec fn full_command_line(args: Seq<&str>) -> Seq<Seq<char>> {
    seq!["agent-spy"@] + tokens(args)
}

/// How a run starts from the arguments after the program's name: help is
/// printed when asked for or when no command is given; a refused command line,
/// or one without `--cli`, fails; otherwise the command is carried out.
pub open spec fn run_start_matches(r: RunStart, args: Seq<&str>) -> bool {
    match parse_command_line(full_command_line(args)) {
        Err(CliError::Help) => r matches RunStart::Print(t) && t@ == usage_text(),
        Err(e) => r matches RunStart::Fail(t) && t@ == error_text(e),
        Ok(a) => if !a.cli {
            r matches RunStart::Fail(t) && t@ == missing_cli_flag()
        } else {
            match a.command {
                None => r matches RunStart::Print(t) && t@ == usage_text(),
                Some(c) => r matches RunStart::Execute(cmd) && command_view(cmd) == c,
            }
        },
    }
}

pub fn start_run(args: &[&str]) -> (r: RunStart)
    ensures
        run_start_matches(r, args@),
{
    let mut full: Vec<&str> = Vec::new();
    full.push("agent-spy");
    let mut i: usize = 0;
    while i < args.len()
        invariant
            i <= args@.len(),
            full@.len() == i + 1,
            tokens(full@) == seq!["agent-spy"@] + tokens(args@.take(i as int)),
        decreases args@.len() - i,
    {
        let ghost before = full@;
        full.push(args[i]);
        assert(tokens(full@) =~= tokens(before).push(args@[i as int]@));
        assert(tokens(args@.take(i + 1)) =~= tokens(args@.take(i as int)).push(args@[i as int]@));
        i = i + 1;
    }
    assert(args@.take(args@.len() as int) =~= args@);
    assert(tokens(full@) =~= full_command_line(args@));
    match CliArgs::try_parse_from(full.as_slice()) {
        Err(e) => match e {
            CliError::Help => RunStart::Print(help_text()),
            other => {
                let m = other.message();
                RunStart::Fail(m)
            },
        },
        Ok(a) => {
            if !a.cli {
                return RunStart::Fail(owned("Missing --cli flag"));
            }
            match a.command {
                None => RunStart::Print(help_text()),
                Some(c) => RunStart::Execute(c),
            }
        },
    }
}

pub open spec fn button_word(b: ButtonChoice) -> Seq<char> {
    match b {
        ButtonChoice::Left => "left"@,
        ButtonChoice::Right => "right"@,
        ButtonChoice::Middle => "middle"@,
    }
}

pub open spec fn axis_word(a: ScrollAxisChoice) -> Seq<char> {
    match a {
        ScrollAxisChoice::Vertical => "vertically"@,
        ScrollAxisChoice::Horizontal => "horizontally"@,
    }
}

pub open spec fn point_text(x: i32, y: i32) -> Seq<char> {
    "("@ + decimal(x as int) + ", "@ + decimal(y as int) + ")"@
}

/// What the tool prints once an action command has been carried out; `None`
/// for the commands whose output is what they read.
pub open spec fn action_report(c: CliCommand<Seq<char>, Seq<ModifierChoice>>) -> Option<Seq<char>> {
    match c {
        CliCommand::Focus { id } => Some("Focused window "@ + decimal(id as int) + "."@),
        CliCommand::Move { id, x, y } => Some(
            "Moved window "@ + decimal(id as int) + " to "@ + point_text(x, y) + "."@,
        ),
        CliCommand::Resize { id, width, height } => Some(
            "Resized window "@ + decimal(id as int) + " to "@ + decimal(width as int) + "x"@ + decimal(height as int)
                + "."@,
        ),
        CliCommand::AlwaysOnTop { id, state } => Some(
            match state {
                OnOff::On => "Always-on-top enabled for window "@,
                OnOff::Off => "Always-on-top disabled for window "@,
            } + decimal(id as int) + "."@,
        ),
        CliCommand::CaptureScreen { output } => Some("Captured screen to "@ + output + "."@),
        CliCommand::CaptureWindow { id, output } => Some(
            "Captured window "@ + decimal(id as int) + " to "@ + output + "."@,
        ),
        CliCommand::SendText { .. } => Some("Sent keyboard text."@),
        CliCommand::MoveMouse { x, y } => Some("Moved mouse to "@ + point_text(x, y) + "."@),
        CliCommand::Click { x, y, .. } => Some("Clicked at "@ + point_text(x, y) + "."@),
        CliCommand::MouseDown { x, y, button } => Some(
            "Pressed "@ + button_word(button) + " mouse button at "@ + point_text(x, y) + "."@,
        ),
        CliCommand::MouseUp { x, y, button } => Some(
            "Released "@ + button_word(button) + " mouse button at "@ + point_text(x, y) + "."@,
        ),
        CliCommand::Drag { start_x, start_y, end_x, end_y, button } => Some(
            "Dragged "@ + button_word(button) + " mouse button from "@ + point_text(start_x, start_y) + " to "@
                + point_text(end_x, end_y) + "."@,
        ),
        CliCommand::Scroll { amount, axis } => Some(
            "Scrolled "@ + axis_word(axis) + " "@ + decimal(amount as int) + "."@,
        ),
        CliCommand::KeyDown { .. } => Some("Pressed key."@),
        CliCommand::KeyUp { .. } => Some("Released key."@),
        CliCommand::KeyTap { .. } => Some("Tapped key."@),
        _ => None,
    }
}

fn push_point(s: &mut String, x: i32, y: i32)
    ensures
        final(s)@ == old(s)@ + point_text(x, y),
{
    push_all(s, "(");
    push_i64(s, x as i64);
    push_all(s, ", ");
    push_i64(s, y as i64);
    push_all(s, ")");
}

pub fn action_message(c: &CliCommand) -> (m: Option<String>)
    ensures
        match m {
            Some(t) => action_report(command_view(*c)) == Some(t@),
            None => action_report(command_view(*c)) is None,
        },
{
    let mut s = String::new();
    assert(s@ =~= Seq::<char>::empty());
    match c {
        CliCommand::Focus { id } => {
            push_all(&mut s, "Focused window ");
            push_u64(&mut s, *id);
            push_all(&mut s, ".");
        },
        CliCommand::Move { id, x, y } => {
            push_all(&mut s, "Moved window ");
            push_u64(&mut s, *id);
            push_all(&mut s, " to ");
            push_point(&mut s, *x, *y);
            push_all(&mut s, ".");
        },
        CliCommand::Resize { id, width, height } => {
            push_all(&mut s, "Resized window ");
            push_u64(&mut s, *id);
            push_all(&mut s, " to ");
            push_u64(&mut s, *width as u64);
            push_all(&mut s, "x");
            push_u64(&mut s, *height as u64);
            push_all(&mut s, ".");
        },
        CliCommand::AlwaysOnTop { id, state } => {
            match state {
                OnOff::On => push_all(&mut s, "Always-on-top enabled for window "),
                OnOff::Off => push_all(&mut s, "Always-on-top disabled for window "),
            }
            push_u64(&mut s, *id);
            push_all(&mut s, ".");
        },
        CliCommand::CaptureScreen { output } => {
            push_all(&mut s, "Captured screen to ");
            push_all(&mut s, output.as_str());
            push_all(&mut s, ".");
        },
        CliCommand::CaptureWindow { id, output } => {
            push_all(&mut s, "Captured window ");
            push_u64(&mut s, *id);
            push_all(&mut s, " to ");
            push_all(&mut s, output.as_str());
            push_all(&mut s, ".");
        },
        CliCommand::SendText { .. } => push_all(&mut s, "Sent keyboard text."),
        CliCommand::MoveMouse { x, y } => {
            push_all(&mut s, "Moved mouse to ");
            push_point(&mut s, *x, *y);
            push_all(&mut s, ".");
        },
        CliCommand::Click { x, y, .. } => {
            push_all(&mut s, "Clicked at ");
            push_point(&mut s, *x, *y);
            push_all(&mut s, ".");
        },
        CliCommand::MouseDown { x, y, button } => {
            push_all(&mut s, "Pressed ");
            push_all(&mut s, button.label());
            push_all(&mut s, " mouse button at ");
            push_point(&mut s, *x, *y);
            push_all(&mut s, ".");
        },
        CliCommand::MouseUp { x, y, button } => {
            push_all(&mut s, "Released ");
            push_all(&mut s, button.label());
            push_all(&mut s, " mouse button at ");
            push_point(&mut s, *x, *y);
            push_all(&mut s, ".");
        },
        CliCommand::Drag { start_x, start_y, end_x, end_y, button } => {
            push_all(&mut s, "Dragged ");
            push_all(&mut s, button.label());
            push_all(&mut s, " mouse button from ");
            push_point(&mut s, *start_x, *start_y);
            push_all(&mut s, " to ");
            push_point(&mut s, *end_x, *end_y);
            push_all(&mut s, ".");
        },
        CliCommand::Scroll { amount, axis } => {
            push_all(&mut s, "Scrolled ");
            push_all(&mut s, axis.label());
            push_all(&mut s, " ");
            push_i64(&mut s, *amount as i64);
            push_all(&mut s, ".");
        },
        CliCommand::KeyDown { .. } => push_all(&mut s, "Pressed key."),
        CliCommand::KeyUp { .. } => push_all(&mut s, "Released key."),
        CliCommand::KeyTap { .. } => push_all(&mut s, "Tapped key."),
        _ => {
            return None;
        },
    }
    Some(s)
}

/// The cursor position as `x y`.
pub open spec fn cursor_text(x: i32, y: i32) -> Seq<char> {
    decimal(x as int) + " "@ + decimal(y as int)
}

pub fn cursor_report(x: i32, y: i32) -> (s: String)
    ensures
        s@ == cursor_text(x, y),
{
    let mut s = String::new();
    assert(s@ =~= Seq::<char>::empty());
    push_i64(&mut s, x as i64);
    push_all(&mut s, " ");
    push_i64(&mut s, y as i64);
    s
}

pub open spec fn no_window_at_point() -> Seq<char> {
    "No window found at that point."@
}

/// The window found at a point, or a note that there is none.
pub fn point_report(found: &Option<WindowInfo>) -> (s: String)
    ensures
        s@ == match found {
            Some(w) => window_block(w@),
            None => no_window_at_point(),
        },
{
    match found {
        Some(w) => format_window(w),
        None => owned("No window found at that point."),
    }
}

/// The tool's name and version.
pub fn version_report(version: &str) -> (s: String)
    ensures
        s@ == "agent-spy "@ + version@,
{
    let mut s = owned("agent-spy ");
    push_all(&mut s, version);
    s
}

/// The features of the session, the input backend and the held modifiers, one
/// `name=value` per line, and whether the session supports the tool at all
/// (some feature is available).
pub open spec fn permissions_text(p: PermissionStatus, backend: Seq<char>, m: ModifierState) -> Seq<char> {
    "screen_capture="@ + bool_text(p.screen_capture) + "\naccessibility="@ + bool_text(p.accessibility)
        + "\ninput_simulation="@ + bool_text(p.input_simulation) + "\ncursor_tracking="@ + bool_text(
        p.cursor_tracking,
    ) + "\ninput_backend="@ + backend + "\nmod_shift="@ + bool_text(m.shift) + "\nmod_control="@ + bool_text(
        m.control,
    ) + "\nmod_alt="@ + bool_text(m.alt) + "\nmod_meta="@ + bool_text(m.meta) + "\nsession_supported="@
        + bool_text(p.screen_capture || p.accessibility || p.input_simulation || p.cursor_tracking)
}

pub fn permissions_report(p: &PermissionStatus, backend: &str, m: ModifierState) -> (s: String)
    ensures
        s@ == permissions_text(*p, backend@, m),
{
    let mut s = owned("screen_capture=");
    push_bool(&mut s, p.screen_capture);
    push_all(&mut s, "\naccessibility=");
    push_bool(&mut s, p.accessibility);
    push_all(&mut s, "\ninput_simulation=");
    push_bool(&mut s, p.input_simulation);
    push_all(&mut s, "\ncursor_tracking=");
    push_bool(&mut s, p.cursor_tracking);
    push_all(&mut s, "\ninput_backend=");
    push_all(&mut s, backend);
    push_all(&mut s, "\nmod_shift=");
    push_bool(&mut s, m.shift);
    push_all(&mut s, "\nmod_control=");
    push_bool(&mut s, m.control);
    push_all(&mut s, "\nmod_alt=");
    push_bool(&mut s, m.alt);
    push_all(&mut s, "\nmod_meta=");
    push_bool(&mut s, m.meta);
    push_all(&mut s, "\nsession_supported=");
    push_bool(&mut s, p.any_available());
    s
}

} // verus!
