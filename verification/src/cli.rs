//! The command-line interface: its grammar, and the text it prints.
use vstd::prelude::*;

use crate::input::{ModifierKey, MouseButtonArg, ScrollAxisArg};
use crate::platform::{WindowInfo, WindowView, window_views};
use crate::text::{decimal, equals_literal, i64_to_string, owned, push_all, str_equals, string_push, u64_to_string};

verus! {

broadcast use vstd::string::group_string_axioms;

#[derive(Debug, Clone, Copy, PartialEq, Eq, Structural)]
pub enum OnOff {
    On,
    Off,
}

#[derive(Debug, Clone, Copy, PartialEq, Eq, Structural)]
pub enum ButtonChoice {
    Left,
    Right,
    Middle,
}

impl ButtonChoice {
    pub fn label(self) -> (l: &'static str)
        ensures
            l@ == (match self {
                ButtonChoice::Left => "left"@,
                ButtonChoice::Right => "right"@,
                ButtonChoice::Middle => "middle"@,
            }),
    {
        match self {
            ButtonChoice::Left => "left",
            ButtonChoice::Right => "right",
            ButtonChoice::Middle => "middle",
        }
    }
}

#[derive(Debug, Clone, Copy, PartialEq, Eq, Structural)]
pub enum ModifierChoice {
    Shift,
    Control,
    Alt,
    Meta,
}

#[derive(Debug, Clone, Copy, PartialEq, Eq, Structural)]
pub enum ScrollAxisChoice {
    Vertical,
    Horizontal,
}

impl ScrollAxisChoice {
    pub fn label(self) -> (l: &'static str)
        ensures
            l@ == (match self {
                ScrollAxisChoice::Vertical => "vertically"@,
                ScrollAxisChoice::Horizontal => "horizontally"@,
            }),
    {
        match self {
            ScrollAxisChoice::Vertical => "vertically",
            ScrollAxisChoice::Horizontal => "horizontally",
        }
    }
}

impl ButtonChoice {
    pub fn to_button(self) -> (b: MouseButtonArg)
        ensures
            b == (match self {
                ButtonChoice::Left => MouseButtonArg::Left,
                ButtonChoice::Right => MouseButtonArg::Right,
                ButtonChoice::Middle => MouseButtonArg::Middle,
            }),
    {
        match self {
            ButtonChoice::Left => MouseButtonArg::Left,
            ButtonChoice::Right => MouseButtonArg::Right,
            ButtonChoice::Middle => MouseButtonArg::Middle,
        }
    }
}

impl ModifierChoice {
    pub fn to_modifier(self) -> (m: ModifierKey)
        ensures
            m == (match self {
                ModifierChoice::Shift => ModifierKey::Shift,
                ModifierChoice::Control => ModifierKey::Control,
                ModifierChoice::Alt => ModifierKey::Alt,
                ModifierChoice::Meta => ModifierKey::Meta,
            }),
    {
        match self {
            ModifierChoice::Shift => ModifierKey::Shift,
            ModifierChoice::Control => ModifierKey::Control,
            ModifierChoice::Alt => ModifierKey::Alt,
            ModifierChoice::Meta => ModifierKey::Meta,
        }
    }
}

impl ScrollAxisChoice {
    pub fn to_axis(self) -> (a: ScrollAxisArg)
        ensures
            a == (match self {
                ScrollAxisChoice::Vertical => ScrollAxisArg::Vertical,
                ScrollAxisChoice::Horizontal => ScrollAxisArg::Horizontal,
            }),
    {
        match self {
            ScrollAxisChoice::Vertical => ScrollAxisArg::Vertical,
            ScrollAxisChoice::Horizontal => ScrollAxisArg::Horizontal,
        }
    }
}

pub open spec fn bool_text(b: bool) -> Seq<char> {
    if b { "true"@ } else { "false"@ }
}

pub(crate) fn push_bool(s: &mut String, b: bool)
    ensures
        final(s)@ == old(s)@ + bool_text(b),
{
    if b {
        push_all(s, "true");
    } else {
        push_all(s, "false");
    }
}

pub(crate) fn push_u64(s: &mut String, n: u64)
    ensures
        final(s)@ == old(s)@ + decimal(n as int),
{
    let d = u64_to_string(n);
    push_all(s, d.as_str());
}

pub(crate) fn push_i64(s: &mut String, n: i64)
    ensures
        final(s)@ == old(s)@ + decimal(n as int),
{
    let d = i64_to_string(n);
    push_all(s, d.as_str());
}

/// The block describing one window, one field per line.
pub open spec fn window_block(w: WindowView) -> Seq<char> {
    "id="@ + decimal(w.id as int) + "\npid="@ + decimal(w.pid as int) + "\ntitle="@ + w.title + "\nx="@ + decimal(
        w.x as int,
    ) + "\ny="@ + decimal(w.y as int) + "\nwidth="@ + decimal(w.width as int) + "\nheight="@ + decimal(
        w.height as int,
    ) + "\nminimized="@ + bool_text(w.is_minimized) + "\nmaximized="@ + bool_text(w.is_maximized)
}

pub fn format_window(window: &WindowInfo) -> (s: String)
    ensures
        s@ == window_block(window@),
{
    let mut s = owned("id=");
    push_u64(&mut s, window.id);
    push_all(&mut s, "\npid=");
    push_u64(&mut s, window.pid as u64);
    push_all(&mut s, "\ntitle=");
    push_all(&mut s, window.title.as_str());
    push_all(&mut s, "\nx=");
    push_i64(&mut s, window.x as i64);
    push_all(&mut s, "\ny=");
    push_i64(&mut s, window.y as i64);
    push_all(&mut s, "\nwidth=");
    push_u64(&mut s, window.width as u64);
    push_all(&mut s, "\nheight=");
    push_u64(&mut s, window.height as u64);
    push_all(&mut s, "\nminimized=");
    push_bool(&mut s, window.is_minimized);
    push_all(&mut s, "\nmaximized=");
    push_bool(&mut s, window.is_maximized);
    s
}

/// The title with each double quote preceded by a backslash.
pub open spec fn escape_quotes(t: Seq<char>) -> Seq<char>
    decreases t.len(),
{
    if t.len() == 0 {
        Seq::empty()
    } else if t.last() == '"' {
        escape_quotes(t.drop_last()) + seq!['\\', '"']
    } else {
        escape_quotes(t.drop_last()).push(t.last())
    }
}

fn push_escaped(s: &mut String, title: &str)
    ensures
        final(s)@ == old(s)@ + escape_quotes(title@),
{
    let n = title.unicode_len();
    let ghost start = s@;
    let mut i: usize = 0;
    while i < n
        invariant
            n == title@.len(),
            i <= n,
            s@ == start + escape_quotes(title@.take(i as int)),
        decreases n - i,
    {
        let c = title.get_char(i);
        assert(title@.take(i + 1).drop_last() =~= title@.take(i as int));
        if c == '"' {
            string_push(s, '\\');
            string_push(s, '"');
        } else {
            string_push(s, c);
        }
        i = i + 1;
        assert(s@ =~= start + escape_quotes(title@.take(i as int)));
    }
    assert(title@.take(n as int) =~= title@);
}

/// The line describing one window in a list.
pub open spec fn window_line(w: WindowView) -> Seq<char> {
    "id="@ + decimal(w.id as int) + " pid="@ + decimal(w.pid as int) + " title=\""@ + escape_quotes(w.title)
        + "\" pos=("@ + decimal(w.x as int) + ", "@ + decimal(w.y as int) + ") size="@ + decimal(w.width as int)
        + "x"@ + decimal(w.height as int) + " minimized="@ + bool_text(w.is_minimized) + " maximized="@
        + bool_text(w.is_maximized)
}

/// One line per window, separated by newlines.
pub open spec fn window_lines(ws: Seq<WindowView>) -> Seq<char>
    decreases ws.len(),
{
    if ws.len() == 0 {
        Seq::empty()
    } else if ws.len() == 1 {
        window_line(ws[0])
    } else {
        window_lines(ws.drop_last()) + "\n"@ + window_line(ws.last())
    }
}

pub open spec fn window_list_text(ws: Seq<WindowView>) -> Seq<char> {
    if ws.len() == 0 {
        "No windows found."@
    } else {
        window_lines(ws)
    }
}

fn window_line_text(window: &WindowInfo) -> (s: String)
    ensures
        s@ == window_line(window@),
{
    let mut s = owned("id=");
    push_u64(&mut s, window.id);
    push_all(&mut s, " pid=");
    push_u64(&mut s, window.pid as u64);
    push_all(&mut s, " title=\"");
    push_escaped(&mut s, window.title.as_str());
    push_all(&mut s, "\" pos=(");
    push_i64(&mut s, window.x as i64);
    push_all(&mut s, ", ");
    push_i64(&mut s, window.y as i64);
    push_all(&mut s, ") size=");
    push_u64(&mut s, window.width as u64);
    push_all(&mut s, "x");
    push_u64(&mut s, window.height as u64);
    push_all(&mut s, " minimized=");
    push_bool(&mut s, window.is_minimized);
    push_all(&mut s, " maximized=");
    push_bool(&mut s, window.is_maximized);
    s
}

pub fn format_windows(windows: &[WindowInfo]) -> (s: String)
    ensures
        s@ == window_list_text(windows@.map_values(|w: WindowInfo| w@)),
{
    let ghost ws = windows@.map_values(|w: WindowInfo| w@);
    if windows.len() == 0 {
        return owned("No windows found.");
    }
    let mut s = window_line_text(&windows[0]);
    assert(ws.take(1).drop_last() =~= Seq::<WindowView>::empty());
    assert(s@ =~= window_lines(ws.take(1)));
    let mut i: usize = 1;
    while i < windows.len()
        invariant
            1 <= i <= windows@.len(),
            ws == windows@.map_values(|w: WindowInfo| w@),
            s@ == window_lines(ws.take(i as int)),
        decreases windows@.len() - i,
    {
        push_all(&mut s, "\n");
        let line = window_line_text(&windows[i]);
        push_all(&mut s, line.as_str());
        assert(ws.take(i + 1).drop_last() =~= ws.take(i as int));
        i = i + 1;
        assert(s@ =~= window_lines(ws.take(i as int)));
    }
    assert(ws.take(windows@.len() as int) =~= ws);
    s
}


/// A parsed command, its strings of type `S` and its modifier list of type `M`.
#[derive(Debug, Clone, PartialEq)]
pub enum CliCommand<S = String, M = Vec<ModifierChoice>> {
    ListWindows { search: Option<S> },
    WindowInfo { id: u64 },
    WindowAtPoint { x: i32, y: i32 },
    CursorPosition,
    Focus { id: u64 },
    Move { id: u64, x: i32, y: i32 },
    Resize { id: u64, width: u32, height: u32 },
    AlwaysOnTop { id: u64, state: OnOff },
    CaptureScreen { output: S },
    CaptureWindow { id: u64, output: S },
    SendText { text: S },
    MoveMouse { x: i32, y: i32 },
    Click { x: i32, y: i32, button: ButtonChoice },
    MouseDown { x: i32, y: i32, button: ButtonChoice },
    MouseUp { x: i32, y: i32, button: ButtonChoice },
    Drag { start_x: i32, start_y: i32, end_x: i32, end_y: i32, button: ButtonChoice },
    Scroll { amount: i32, axis: ScrollAxisChoice },
    KeyDown { key: S },
    KeyUp { key: S },
    KeyTap { key: S, modifiers: M },
    CheckPermissions,
    Version,
}

#[derive(Debug, Clone, PartialEq)]
pub struct CliArgs<S = String, M = Vec<ModifierChoice>> {
    pub cli: bool,
    pub command: Option<CliCommand<S, M>>,
}

/// Why a command line was refused, with the argument at fault. `Help` is the
/// request for the usage text.
#[derive(Debug, Clone, PartialEq)]
pub enum CliError<S = String> {
    Help,
    UnexpectedArgument(S),
    UnknownSubcommand(S),
    UnexpectedValue(S),
    RepeatedArgument(S),
    MissingValue(S),
    InvalidValue(S),
    MissingArgument(S),
}

/// The subcommands.
#[derive(Debug, Clone, Copy, PartialEq, Eq, Structural)]
pub enum Subcommand {
    ListWindows,
    WindowInfo,
    WindowAtPoint,
    CursorPosition,
    Focus,
    Move,
    Resize,
    AlwaysOnTop,
    CaptureScreen,
    CaptureWindow,
    SendText,
    MoveMouse,
    Click,
    MouseDown,
    MouseUp,
    Drag,
    Scroll,
    KeyDown,
    KeyUp,
    KeyTap,
    CheckPermissions,
    Version,
}

/// The name of each subcommand on the command line.
pub open spec fn subcommand_name(sub: Subcommand) -> Seq<char> {
    match sub {
        Subcommand::ListWindows => "list-windows"@,
        Subcommand::WindowInfo => "window-info"@,
        Subcommand::WindowAtPoint => "window-at-point"@,
        Subcommand::CursorPosition => "cursor-position"@,
        Subcommand::Focus => "focus"@,
        Subcommand::Move => "move"@,
        Subcommand::Resize => "resize"@,
        Subcommand::AlwaysOnTop => "always-on-top"@,
        Subcommand::CaptureScreen => "capture-screen"@,
        Subcommand::CaptureWindow => "capture-window"@,
        Subcommand::SendText => "send-text"@,
        Subcommand::MoveMouse => "move-mouse"@,
        Subcommand::Click => "click"@,
        Subcommand::MouseDown => "mouse-down"@,
        Subcommand::MouseUp => "mouse-up"@,
        Subcommand::Drag => "drag"@,
        Subcommand::Scroll => "scroll"@,
        Subcommand::KeyDown => "key-down"@,
        Subcommand::KeyUp => "key-up"@,
        Subcommand::KeyTap => "key-tap"@,
        Subcommand::CheckPermissions => "check-permissions"@,
        Subcommand::Version => "version"@,
    }
}

/// The subcommand with this name, if any.
pub open spec fn subcommand_named(name: Seq<char>) -> Option<Subcommand> {
    if name == "list-windows"@ {
        Some(Subcommand::ListWindows)
    } else if name == "window-info"@ {
        Some(Subcommand::WindowInfo)
    } else if name == "window-at-point"@ {
        Some(Subcommand::WindowAtPoint)
    } else if name == "cursor-position"@ {
        Some(Subcommand::CursorPosition)
    } else if name == "focus"@ {
        Some(Subcommand::Focus)
    } else if name == "move"@ {
        Some(Subcommand::Move)
    } else if name == "resize"@ {
        Some(Subcommand::Resize)
    } else if name == "always-on-top"@ {
        Some(Subcommand::AlwaysOnTop)
    } else if name == "capture-screen"@ {
        Some(Subcommand::CaptureScreen)
    } else if name == "capture-window"@ {
        Some(Subcommand::CaptureWindow)
    } else if name == "send-text"@ {
        Some(Subcommand::SendText)
    } else if name == "move-mouse"@ {
        Some(Subcommand::MoveMouse)
    } else if name == "click"@ {
        Some(Subcommand::Click)
    } else if name == "mouse-down"@ {
        Some(Subcommand::MouseDown)
    } else if name == "mouse-up"@ {
        Some(Subcommand::MouseUp)
    } else if name == "drag"@ {
        Some(Subcommand::Drag)
    } else if name == "scroll"@ {
        Some(Subcommand::Scroll)
    } else if name == "key-down"@ {
        Some(Subcommand::KeyDown)
    } else if name == "key-up"@ {
        Some(Subcommand::KeyUp)
    } else if name == "key-tap"@ {
        Some(Subcommand::KeyTap)
    } else if name == "check-permissions"@ {
        Some(Subcommand::CheckPermissions)
    } else if name == "version"@ {
        Some(Subcommand::Version)
    } else {
        None
    }
}

fn find_subcommand(name: &str) -> (sub: Option<Subcommand>)
    ensures
        sub == subcommand_named(name@),
{
    let n = name.to_string();
    if equals_literal(&n, "list-windows") {
        Some(Subcommand::ListWindows)
    } else if equals_literal(&n, "window-info") {
        Some(Subcommand::WindowInfo)
    } else if equals_literal(&n, "window-at-point") {
        Some(Subcommand::WindowAtPoint)
    } else if equals_literal(&n, "cursor-position") {
        Some(Subcommand::CursorPosition)
    } else if equals_literal(&n, "focus") {
        Some(Subcommand::Focus)
    } else if equals_literal(&n, "move") {
        Some(Subcommand::Move)
    } else if equals_literal(&n, "resize") {
        Some(Subcommand::Resize)
    } else if equals_literal(&n, "always-on-top") {
        Some(Subcommand::AlwaysOnTop)
    } else if equals_literal(&n, "capture-screen") {
        Some(Subcommand::CaptureScreen)
    } else if equals_literal(&n, "capture-window") {
        Some(Subcommand::CaptureWindow)
    } else if equals_literal(&n, "send-text") {
        Some(Subcommand::SendText)
    } else if equals_literal(&n, "move-mouse") {
        Some(Subcommand::MoveMouse)
    } else if equals_literal(&n, "click") {
        Some(Subcommand::Click)
    } else if equals_literal(&n, "mouse-down") {
        Some(Subcommand::MouseDown)
    } else if equals_literal(&n, "mouse-up") {
        Some(Subcommand::MouseUp)
    } else if equals_literal(&n, "drag") {
        Some(Subcommand::Drag)
    } else if equals_literal(&n, "scroll") {
        Some(Subcommand::Scroll)
    } else if equals_literal(&n, "key-down") {
        Some(Subcommand::KeyDown)
    } else if equals_literal(&n, "key-up") {
        Some(Subcommand::KeyUp)
    } else if equals_literal(&n, "key-tap") {
        Some(Subcommand::KeyTap)
    } else if equals_literal(&n, "check-permissions") {
        Some(Subcommand::CheckPermissions)
    } else if equals_literal(&n, "version") {
        Some(Subcommand::Version)
    } else {
        None
    }
}

fn subcommand_text(sub: Subcommand) -> (s: &'static str)
    ensures
        s@ == subcommand_name(sub),
{
    match sub {
        Subcommand::ListWindows => "list-windows",
        Subcommand::WindowInfo => "window-info",
        Subcommand::WindowAtPoint => "window-at-point",
        Subcommand::CursorPosition => "cursor-position",
        Subcommand::Focus => "focus",
        Subcommand::Move => "move",
        Subcommand::Resize => "resize",
        Subcommand::AlwaysOnTop => "always-on-top",
        Subcommand::CaptureScreen => "capture-screen",
        Subcommand::CaptureWindow => "capture-window",
        Subcommand::SendText => "send-text",
        Subcommand::MoveMouse => "move-mouse",
        Subcommand::Click => "click",
        Subcommand::MouseDown => "mouse-down",
        Subcommand::MouseUp => "mouse-up",
        Subcommand::Drag => "drag",
        Subcommand::Scroll => "scroll",
        Subcommand::KeyDown => "key-down",
        Subcommand::KeyUp => "key-up",
        Subcommand::KeyTap => "key-tap",
        Subcommand::CheckPermissions => "check-permissions",
        Subcommand::Version => "version",
    }
}

/// Kinds of positional values: a window id, a coordinate, a size, on/off, text.
#[derive(Debug, Clone, Copy, PartialEq, Eq, Structural)]
pub enum ValueKind {
    Id,
    Coord,
    Size,
    State,
    Text,
}

/// The positional values each subcommand takes, in order.
pub open spec fn positional_kinds(sub: Subcommand) -> Seq<ValueKind> {
    match sub {
        Subcommand::ListWindows => seq![],
        Subcommand::WindowInfo => seq![ValueKind::Id],
        Subcommand::WindowAtPoint => seq![ValueKind::Coord, ValueKind::Coord],
        Subcommand::CursorPosition => seq![],
        Subcommand::Focus => seq![ValueKind::Id],
        Subcommand::Move => seq![ValueKind::Id, ValueKind::Coord, ValueKind::Coord],
        Subcommand::Resize => seq![ValueKind::Id, ValueKind::Size, ValueKind::Size],
        Subcommand::AlwaysOnTop => seq![ValueKind::Id, ValueKind::State],
        Subcommand::CaptureScreen => seq![],
        Subcommand::CaptureWindow => seq![ValueKind::Id],
        Subcommand::SendText => seq![ValueKind::Text],
        Subcommand::MoveMouse => seq![ValueKind::Coord, ValueKind::Coord],
        Subcommand::Click => seq![ValueKind::Coord, ValueKind::Coord],
        Subcommand::MouseDown => seq![ValueKind::Coord, ValueKind::Coord],
        Subcommand::MouseUp => seq![ValueKind::Coord, ValueKind::Coord],
        Subcommand::Drag => seq![ValueKind::Coord, ValueKind::Coord, ValueKind::Coord, ValueKind::Coord],
        Subcommand::Scroll => seq![ValueKind::Coord],
        Subcommand::KeyDown => seq![ValueKind::Text],
        Subcommand::KeyUp => seq![ValueKind::Text],
        Subcommand::KeyTap => seq![ValueKind::Text],
        Subcommand::CheckPermissions => seq![],
        Subcommand::Version => seq![],
    }
}

fn positional_count(sub: Subcommand) -> (n: usize)
    ensures
        n == positional_kinds(sub).len(),
{
    match sub {
        Subcommand::ListWindows => 0,
        Subcommand::WindowInfo => 1,
        Subcommand::WindowAtPoint => 2,
        Subcommand::CursorPosition => 0,
        Subcommand::Focus => 1,
        Subcommand::Move => 3,
        Subcommand::Resize => 3,
        Subcommand::AlwaysOnTop => 2,
        Subcommand::CaptureScreen => 0,
        Subcommand::CaptureWindow => 1,
        Subcommand::SendText => 1,
        Subcommand::MoveMouse => 2,
        Subcommand::Click => 2,
        Subcommand::MouseDown => 2,
        Subcommand::MouseUp => 2,
        Subcommand::Drag => 4,
        Subcommand::Scroll => 1,
        Subcommand::KeyDown => 1,
        Subcommand::KeyUp => 1,
        Subcommand::KeyTap => 1,
        Subcommand::CheckPermissions => 0,
        Subcommand::Version => 0,
    }
}

fn positional_kind(sub: Subcommand, k: usize) -> (kind: ValueKind)
    requires
        k < positional_kinds(sub).len(),
    ensures
        kind == positional_kinds(sub)[k as int],
{
    match sub {
        Subcommand::WindowInfo => ValueKind::Id,
        Subcommand::WindowAtPoint => ValueKind::Coord,
        Subcommand::Focus => ValueKind::Id,
        Subcommand::Move => if k == 0 { ValueKind::Id } else if k == 1 { ValueKind::Coord } else { ValueKind::Coord },
        Subcommand::Resize => if k == 0 { ValueKind::Id } else if k == 1 { ValueKind::Size } else { ValueKind::Size },
        Subcommand::AlwaysOnTop => if k == 0 { ValueKind::Id } else { ValueKind::State },
        Subcommand::CaptureWindow => ValueKind::Id,
        Subcommand::SendText => ValueKind::Text,
        Subcommand::MoveMouse => ValueKind::Coord,
        Subcommand::Click => ValueKind::Coord,
        Subcommand::MouseDown => ValueKind::Coord,
        Subcommand::MouseUp => ValueKind::Coord,
        Subcommand::Drag => ValueKind::Coord,
        Subcommand::Scroll => ValueKind::Coord,
        Subcommand::KeyDown => ValueKind::Text,
        Subcommand::KeyUp => ValueKind::Text,
        Subcommand::KeyTap => ValueKind::Text,
        _ => ValueKind::Text,
    }
}

/// Kinds of options: `--search`, `--output`, `--button`, `--axis`, `--mod`.
#[derive(Debug, Clone, Copy, PartialEq, Eq, Structural)]
pub enum OptionKind {
    Search,
    Output,
    Button,
    Axis,
    Mod,
}

/// The option of a subcommand with this long name, if it takes one.
pub open spec fn option_named(sub: Subcommand, name: Seq<char>) -> Option<OptionKind> {
    match sub {
        Subcommand::ListWindows => if name == "search"@ { Some(OptionKind::Search) } else { None },
        Subcommand::CaptureScreen => if name == "output"@ { Some(OptionKind::Output) } else { None },
        Subcommand::CaptureWindow => if name == "output"@ { Some(OptionKind::Output) } else { None },
        Subcommand::Click => if name == "button"@ { Some(OptionKind::Button) } else { None },
        Subcommand::MouseDown => if name == "button"@ { Some(OptionKind::Button) } else { None },
        Subcommand::MouseUp => if name == "button"@ { Some(OptionKind::Button) } else { None },
        Subcommand::Drag => if name == "button"@ { Some(OptionKind::Button) } else { None },
        Subcommand::Scroll => if name == "axis"@ { Some(OptionKind::Axis) } else { None },
        Subcommand::KeyTap => if name == "mod"@ { Some(OptionKind::Mod) } else { None },
        _ => None,
    }
}

fn find_option(sub: Subcommand, name: &String) -> (opt: Option<OptionKind>)
    ensures
        opt == option_named(sub, name@),
{
    match sub {
        Subcommand::ListWindows => if equals_literal(name, "search") { Some(OptionKind::Search) } else { None },
        Subcommand::CaptureScreen => if equals_literal(name, "output") { Some(OptionKind::Output) } else { None },
        Subcommand::CaptureWindow => if equals_literal(name, "output") { Some(OptionKind::Output) } else { None },
        Subcommand::Click => if equals_literal(name, "button") { Some(OptionKind::Button) } else { None },
        Subcommand::MouseDown => if equals_literal(name, "button") { Some(OptionKind::Button) } else { None },
        Subcommand::MouseUp => if equals_literal(name, "button") { Some(OptionKind::Button) } else { None },
        Subcommand::Drag => if equals_literal(name, "button") { Some(OptionKind::Button) } else { None },
        Subcommand::Scroll => if equals_literal(name, "axis") { Some(OptionKind::Axis) } else { None },
        Subcommand::KeyTap => if equals_literal(name, "mod") { Some(OptionKind::Mod) } else { None },
        _ => None,
    }
}

/// A positional value, its text of type `S`.
#[derive(Debug, Clone)]
pub enum ArgValue<S = String> {
    Id(u64),
    Coord(i32),
    Size(u32),
    State(OnOff),
    Text(S),
}

pub open spec fn arg_value_view(v: ArgValue) -> ArgValue<Seq<char>> {
    match v {
        ArgValue::Id(n) => ArgValue::Id(n),
        ArgValue::Coord(n) => ArgValue::Coord(n),
        ArgValue::Size(n) => ArgValue::Size(n),
        ArgValue::State(s) => ArgValue::State(s),
        ArgValue::Text(s) => ArgValue::Text(s@),
    }
}

pub open spec fn arg_values_view(vs: Seq<ArgValue>) -> Seq<ArgValue<Seq<char>>> {
    vs.map_values(|v: ArgValue| arg_value_view(v))
}

/// The options given so far, their text of type `S`, the modifier list of type `M`.
#[derive(Debug, Clone)]
pub struct ParsedOptions<S = String, M = Vec<ModifierChoice>> {
    pub search: Option<S>,
    pub output: Option<S>,
    pub button: Option<ButtonChoice>,
    pub axis: Option<ScrollAxisChoice>,
    pub mods: M,
}

pub open spec fn opt_text_view(s: Option<String>) -> Option<Seq<char>> {
    match s {
        Some(t) => Some(t@),
        None => None,
    }
}

pub open spec fn options_view(o: ParsedOptions) -> ParsedOptions<Seq<char>, Seq<ModifierChoice>> {
    ParsedOptions {
        search: opt_text_view(o.search),
        output: opt_text_view(o.output),
        button: o.button,
        axis: o.axis,
        mods: o.mods@,
    }
}

pub open spec fn no_options() -> ParsedOptions<Seq<char>, Seq<ModifierChoice>> {
    ParsedOptions { search: None, output: None, button: None, axis: None, mods: Seq::empty() }
}

pub open spec fn is_digit(c: char) -> bool {
    '0' <= c && c <= '9'
}

pub open spec fn all_digits(s: Seq<char>) -> bool {
    s.len() > 0 && forall|i: int| 0 <= i < s.len() ==> is_digit(#[trigger] s[i])
}

/// Value of a run of decimal digits.
pub open spec fn digits_value(s: Seq<char>) -> int
    decreases s.len(),
{
    if s.len() == 0 {
        0
    } else {
        digits_value(s.drop_last()) * 10 + (s.last() as int - 48)
    }
}

/// An unsigned decimal number, with an optional leading `+`.
pub open spec fn unsigned_number(t: Seq<char>) -> Option<int> {
    let d = if t.len() > 0 && t[0] == '+' { t.skip(1) } else { t };
    if all_digits(d) { Some(digits_value(d)) } else { None }
}

/// A decimal number with an optional leading `+` or `-`.
pub open spec fn signed_number(t: Seq<char>) -> Option<int> {
    if t.len() > 0 && t[0] == '-' {
        if all_digits(t.skip(1)) { Some(-digits_value(t.skip(1))) } else { None }
    } else {
        unsigned_number(t)
    }
}

/// The value a positional argument of the given kind takes from the text.
pub open spec fn parse_value(kind: ValueKind, t: Seq<char>) -> Option<ArgValue<Seq<char>>> {
    match kind {
        ValueKind::Id => match unsigned_number(t) {
            Some(v) => if v <= u64::MAX { Some(ArgValue::Id(v as u64)) } else { None },
            None => None,
        },
        ValueKind::Coord => match signed_number(t) {
            Some(v) => if i32::MIN <= v <= i32::MAX { Some(ArgValue::Coord(v as i32)) } else { None },
            None => None,
        },
        ValueKind::Size => match signed_number(t) {
            Some(v) => if 0 <= v <= u32::MAX { Some(ArgValue::Size(v as u32)) } else { None },
            None => None,
        },
        ValueKind::State => if t == "on"@ {
            Some(ArgValue::State(OnOff::On))
        } else if t == "off"@ {
            Some(ArgValue::State(OnOff::Off))
        } else {
            None
        },
        ValueKind::Text => Some(ArgValue::Text(t)),
    }
}

/// An option of this kind was given already; only `--mod` may repeat.
pub open spec fn option_given(o: ParsedOptions<Seq<char>, Seq<ModifierChoice>>, kind: OptionKind) -> bool {
    match kind {
        OptionKind::Search => o.search is Some,
        OptionKind::Output => o.output is Some,
        OptionKind::Button => o.button is Some,
        OptionKind::Axis => o.axis is Some,
        OptionKind::Mod => false,
    }
}

/// The options once an option of this kind takes the value `v`; `None` when
/// the value is not one the option accepts.
pub open spec fn with_option(
    o: ParsedOptions<Seq<char>, Seq<ModifierChoice>>,
    kind: OptionKind,
    v: Seq<char>,
) -> Option<ParsedOptions<Seq<char>, Seq<ModifierChoice>>> {
    match kind {
        OptionKind::Search => Some(ParsedOptions { search: Some(v), ..o }),
        OptionKind::Output => if v.len() == 0 { None } else { Some(ParsedOptions { output: Some(v), ..o }) },
        OptionKind::Button => if v == "left"@ {
            Some(ParsedOptions { button: Some(ButtonChoice::Left), ..o })
        } else if v == "right"@ {
            Some(ParsedOptions { button: Some(ButtonChoice::Right), ..o })
        } else if v == "middle"@ {
            Some(ParsedOptions { button: Some(ButtonChoice::Middle), ..o })
        } else {
            None
        },
        OptionKind::Axis => if v == "vertical"@ {
            Some(ParsedOptions { axis: Some(ScrollAxisChoice::Vertical), ..o })
        } else if v == "horizontal"@ {
            Some(ParsedOptions { axis: Some(ScrollAxisChoice::Horizontal), ..o })
        } else {
            None
        },
        OptionKind::Mod => if v == "shift"@ {
            Some(ParsedOptions { mods: o.mods.push(ModifierChoice::Shift), ..o })
        } else if v == "control"@ {
            Some(ParsedOptions { mods: o.mods.push(ModifierChoice::Control), ..o })
        } else if v == "alt"@ {
            Some(ParsedOptions { mods: o.mods.push(ModifierChoice::Alt), ..o })
        } else if v == "meta"@ {
            Some(ParsedOptions { mods: o.mods.push(ModifierChoice::Meta), ..o })
        } else {
            None
        },
    }
}

/// A token that reads as a flag: a dash and at least one more character.
pub open spec fn is_flag(t: Seq<char>) -> bool {
    t.len() >= 2 && t[0] == '-'
}

/// A long flag: two dashes.
pub open spec fn is_long(t: Seq<char>) -> bool {
    t.len() >= 2 && t[0] == '-' && t[1] == '-'
}

/// Position of the first `=` at or after `i`, or the length when there is none.
pub open spec fn first_eq(s: Seq<char>, i: int) -> int
    decreases s.len() - i,
{
    if i >= s.len() || i < 0 {
        s.len() as int
    } else if s[i] == '=' {
        i
    } else {
        first_eq(s, i + 1)
    }
}

pub open spec fn id_of(v: ArgValue<Seq<char>>) -> u64 {
    match v {
        ArgValue::Id(n) => n,
        _ => 0,
    }
}

pub open spec fn coord_of(v: ArgValue<Seq<char>>) -> i32 {
    match v {
        ArgValue::Coord(n) => n,
        _ => 0,
    }
}

pub open spec fn size_of_value(v: ArgValue<Seq<char>>) -> u32 {
    match v {
        ArgValue::Size(n) => n,
        _ => 0,
    }
}

pub open spec fn state_of(v: ArgValue<Seq<char>>) -> OnOff {
    match v {
        ArgValue::State(s) => s,
        _ => OnOff::Off,
    }
}

pub open spec fn text_of(v: ArgValue<Seq<char>>) -> Seq<char> {
    match v {
        ArgValue::Text(s) => s,
        _ => Seq::empty(),
    }
}

pub open spec fn button_or_left(b: Option<ButtonChoice>) -> ButtonChoice {
    match b {
        Some(c) => c,
        None => ButtonChoice::Left,
    }
}

pub open spec fn axis_or_vertical(a: Option<ScrollAxisChoice>) -> ScrollAxisChoice {
    match a {
        Some(c) => c,
        None => ScrollAxisChoice::Vertical,
    }
}

pub open spec fn text_or_empty(s: Option<Seq<char>>) -> Seq<char> {
    match s {
        Some(t) => t,
        None => Seq::empty(),
    }
}

/// The command that a subcommand with all its values makes; buttons default to
/// left and the scroll axis to vertical.
pub open spec fn build_command(
    sub: Subcommand,
    pos: Seq<ArgValue<Seq<char>>>,
    o: ParsedOptions<Seq<char>, Seq<ModifierChoice>>,
) -> CliCommand<Seq<char>, Seq<ModifierChoice>> {
    match sub {
        Subcommand::ListWindows => CliCommand::ListWindows { search: o.search },
        Subcommand::WindowInfo => CliCommand::WindowInfo { id: id_of(pos[0]) },
        Subcommand::WindowAtPoint => CliCommand::WindowAtPoint { x: coord_of(pos[0]), y: coord_of(pos[1]) },
        Subcommand::CursorPosition => CliCommand::CursorPosition,
        Subcommand::Focus => CliCommand::Focus { id: id_of(pos[0]) },
        Subcommand::Move => CliCommand::Move { id: id_of(pos[0]), x: coord_of(pos[1]), y: coord_of(pos[2]) },
        Subcommand::Resize => CliCommand::Resize {
            id: id_of(pos[0]),
            width: size_of_value(pos[1]),
            height: size_of_value(pos[2]),
        },
        Subcommand::AlwaysOnTop => CliCommand::AlwaysOnTop { id: id_of(pos[0]), state: state_of(pos[1]) },
        Subcommand::CaptureScreen => CliCommand::CaptureScreen { output: text_or_empty(o.output) },
        Subcommand::CaptureWindow => CliCommand::CaptureWindow { id: id_of(pos[0]), output: text_or_empty(o.output) },
        Subcommand::SendText => CliCommand::SendText { text: text_of(pos[0]) },
        Subcommand::MoveMouse => CliCommand::MoveMouse { x: coord_of(pos[0]), y: coord_of(pos[1]) },
        Subcommand::Click => CliCommand::Click {
            x: coord_of(pos[0]),
            y: coord_of(pos[1]),
            button: button_or_left(o.button),
        },
        Subcommand::MouseDown => CliCommand::MouseDown {
            x: coord_of(pos[0]),
            y: coord_of(pos[1]),
            button: button_or_left(o.button),
        },
        Subcommand::MouseUp => CliCommand::MouseUp {
            x: coord_of(pos[0]),
            y: coord_of(pos[1]),
            button: button_or_left(o.button),
        },
        Subcommand::Drag => CliCommand::Drag {
            start_x: coord_of(pos[0]),
            start_y: coord_of(pos[1]),
            end_x: coord_of(pos[2]),
            end_y: coord_of(pos[3]),
            button: button_or_left(o.button),
        },
        Subcommand::Scroll => CliCommand::Scroll { amount: coord_of(pos[0]), axis: axis_or_vertical(o.axis) },
        Subcommand::KeyDown => CliCommand::KeyDown { key: text_of(pos[0]) },
        Subcommand::KeyUp => CliCommand::KeyUp { key: text_of(pos[0]) },
        Subcommand::KeyTap => CliCommand::KeyTap { key: text_of(pos[0]), modifiers: o.mods },
        Subcommand::CheckPermissions => CliCommand::CheckPermissions,
        Subcommand::Version => CliCommand::Version,
    }
}

/// A subcommand's arguments end: every positional value must be there, and the
/// capture commands need `--output`.
pub open spec fn finish_command(
    sub: Subcommand,
    pos: Seq<ArgValue<Seq<char>>>,
    o: ParsedOptions<Seq<char>, Seq<ModifierChoice>>,
) -> Result<CliCommand<Seq<char>, Seq<ModifierChoice>>, CliError<Seq<char>>> {
    if pos.len() < positional_kinds(sub).len() {
        Err(CliError::MissingArgument(subcommand_name(sub)))
    } else if (sub == Subcommand::CaptureScreen || sub == Subcommand::CaptureWindow) && o.output is None {
        Err(CliError::MissingArgument("--output"@))
    } else {
        Ok(build_command(sub, pos, o))
    }
}

/// The arguments of a subcommand from token `i` on. Until `--`, tokens that
/// start with a dash are options (`--name value` or `--name=value`) or help;
/// every other token is the next positional value.
pub open spec fn sub_walk(
    toks: Seq<Seq<char>>,
    i: int,
    sub: Subcommand,
    pos: Seq<ArgValue<Seq<char>>>,
    o: ParsedOptions<Seq<char>, Seq<ModifierChoice>>,
    trailing: bool,
) -> Result<CliCommand<Seq<char>, Seq<ModifierChoice>>, CliError<Seq<char>>>
    decreases toks.len() - i,
{
    if i >= toks.len() || i < 0 {
        finish_command(sub, pos, o)
    } else {
        let t = toks[i];
        if !trailing && t == "--"@ {
            sub_walk(toks, i + 1, sub, pos, o, true)
        } else if !trailing && is_long(t) {
            let body = t.skip(2);
            let k = first_eq(body, 0);
            let name = body.take(k);
            if name == "help"@ {
                if k < body.len() { Err(CliError::UnexpectedValue(t)) } else { Err(CliError::Help) }
            } else {
                match option_named(sub, name) {
                    None => Err(CliError::UnexpectedArgument(t)),
                    Some(kind) => if option_given(o, kind) {
                        Err(CliError::RepeatedArgument(t))
                    } else if k < body.len() {
                        match with_option(o, kind, body.skip(k + 1)) {
                            None => Err(CliError::InvalidValue(body.skip(k + 1))),
                            Some(o2) => sub_walk(toks, i + 1, sub, pos, o2, trailing),
                        }
                    } else if i + 1 < toks.len() && !is_flag(toks[i + 1]) {
                        match with_option(o, kind, toks[i + 1]) {
                            None => Err(CliError::InvalidValue(toks[i + 1])),
                            Some(o2) => sub_walk(toks, i + 2, sub, pos, o2, trailing),
                        }
                    } else {
                        Err(CliError::MissingValue(t))
                    },
                }
            }
        } else if !trailing && is_flag(t) {
            if t[1] == 'h' { Err(CliError::Help) } else { Err(CliError::UnexpectedArgument(t)) }
        } else if pos.len() >= positional_kinds(sub).len() {
            Err(CliError::UnexpectedArgument(t))
        } else {
            match parse_value(positional_kinds(sub)[pos.len() as int], t) {
                None => Err(CliError::InvalidValue(t)),
                Some(v) => sub_walk(toks, i + 1, sub, pos.push(v), o, trailing),
            }
        }
    }
}

/// The command line from token `i` on, before the subcommand: `--cli` (once),
/// help, or the subcommand's name.
pub open spec fn top_walk(toks: Seq<Seq<char>>, i: int, cli: bool) -> Result<
    CliArgs<Seq<char>, Seq<ModifierChoice>>,
    CliError<Seq<char>>,
>
    decreases toks.len() - i,
{
    if i >= toks.len() || i < 0 {
        Ok(CliArgs { cli, command: None })
    } else {
        let t = toks[i];
        if t == "--"@ {
            if i + 1 < toks.len() {
                Err(CliError::UnexpectedArgument(toks[i + 1]))
            } else {
                Ok(CliArgs { cli, command: None })
            }
        } else if is_long(t) {
            let body = t.skip(2);
            let k = first_eq(body, 0);
            let name = body.take(k);
            if name == "cli"@ {
                if k < body.len() {
                    Err(CliError::UnexpectedValue(t))
                } else if cli {
                    Err(CliError::RepeatedArgument(t))
                } else {
                    top_walk(toks, i + 1, true)
                }
            } else if name == "help"@ {
                if k < body.len() { Err(CliError::UnexpectedValue(t)) } else { Err(CliError::Help) }
            } else {
                Err(CliError::UnexpectedArgument(t))
            }
        } else if is_flag(t) {
            if t[1] == 'h' { Err(CliError::Help) } else { Err(CliError::UnexpectedArgument(t)) }
        } else {
            match subcommand_named(t) {
                None => Err(CliError::UnknownSubcommand(t)),
                Some(sub) => match sub_walk(toks, i + 1, sub, Seq::empty(), no_options(), false) {
                    Ok(c) => Ok(CliArgs { cli, command: Some(c) }),
                    Err(e) => Err(e),
                },
            }
        }
    }
}

/// The command line: the program name, then the arguments.
pub open spec fn parse_command_line(toks: Seq<Seq<char>>) -> Result<
    CliArgs<Seq<char>, Seq<ModifierChoice>>,
    CliError<Seq<char>>,
> {
    top_walk(toks, 1, false)
}

pub open spec fn command_view(c: CliCommand) -> CliCommand<Seq<char>, Seq<ModifierChoice>> {
    match c {
        CliCommand::ListWindows { search } => CliCommand::ListWindows { search: opt_text_view(search) },
        CliCommand::WindowInfo { id } => CliCommand::WindowInfo { id },
        CliCommand::WindowAtPoint { x, y } => CliCommand::WindowAtPoint { x, y },
        CliCommand::CursorPosition => CliCommand::CursorPosition,
        CliCommand::Focus { id } => CliCommand::Focus { id },
        CliCommand::Move { id, x, y } => CliCommand::Move { id, x, y },
        CliCommand::Resize { id, width, height } => CliCommand::Resize { id, width, height },
        CliCommand::AlwaysOnTop { id, state } => CliCommand::AlwaysOnTop { id, state },
        CliCommand::CaptureScreen { output } => CliCommand::CaptureScreen { output: output@ },
        CliCommand::CaptureWindow { id, output } => CliCommand::CaptureWindow { id, output: output@ },
        CliCommand::SendText { text } => CliCommand::SendText { text: text@ },
        CliCommand::MoveMouse { x, y } => CliCommand::MoveMouse { x, y },
        CliCommand::Click { x, y, button } => CliCommand::Click { x, y, button },
        CliCommand::MouseDown { x, y, button } => CliCommand::MouseDown { x, y, button },
        CliCommand::MouseUp { x, y, button } => CliCommand::MouseUp { x, y, button },
        CliCommand::Drag { start_x, start_y, end_x, end_y, button } => CliCommand::Drag {
            start_x,
            start_y,
            end_x,
            end_y,
            button,
        },
        CliCommand::Scroll { amount, axis } => CliCommand::Scroll { amount, axis },
        CliCommand::KeyDown { key } => CliCommand::KeyDown { key: key@ },
        CliCommand::KeyUp { key } => CliCommand::KeyUp { key: key@ },
        CliCommand::KeyTap { key, modifiers } => CliCommand::KeyTap { key: key@, modifiers: modifiers@ },
        CliCommand::CheckPermissions => CliCommand::CheckPermissions,
        CliCommand::Version => CliCommand::Version,
    }
}

pub open spec fn error_view(e: CliError) -> CliError<Seq<char>> {
    match e {
        CliError::Help => CliError::Help,
        CliError::UnexpectedArgument(s) => CliError::UnexpectedArgument(s@),
        CliError::UnknownSubcommand(s) => CliError::UnknownSubcommand(s@),
        CliError::UnexpectedValue(s) => CliError::UnexpectedValue(s@),
        CliError::RepeatedArgument(s) => CliError::RepeatedArgument(s@),
        CliError::MissingValue(s) => CliError::MissingValue(s@),
        CliError::InvalidValue(s) => CliError::InvalidValue(s@),
        CliError::MissingArgument(s) => CliError::MissingArgument(s@),
    }
}

pub open spec fn command_result_view(r: Result<CliCommand, CliError>) -> Result<
    CliCommand<Seq<char>, Seq<ModifierChoice>>,
    CliError<Seq<char>>,
> {
    match r {
        Ok(c) => Ok(command_view(c)),
        Err(e) => Err(error_view(e)),
    }
}

pub open spec fn args_result_view(r: Result<CliArgs, CliError>) -> Result<
    CliArgs<Seq<char>, Seq<ModifierChoice>>,
    CliError<Seq<char>>,
> {
    match r {
        Ok(a) => Ok(
            CliArgs {
                cli: a.cli,
                command: match a.command {
                    Some(c) => Some(command_view(c)),
                    None => None,
                },
            },
        ),
        Err(e) => Err(error_view(e)),
    }
}

/// The tokens of a command line, as characters.
pub open spec fn tokens(args: Seq<&str>) -> Seq<Seq<char>> {
    args.map_values(|a: &str| a@)
}


/// Numbers past this bound are out of range for every value kind.
pub(crate) const NUMBER_CAP: u128 = 0x1_0000_0000_0000_0000;

proof fn lemma_digits_value_nonneg(s: Seq<char>)
    requires
        forall|i: int| 0 <= i < s.len() ==> is_digit(#[trigger] s[i]),
    ensures
        digits_value(s) >= 0,
    decreases s.len(),
{
    if s.len() > 0 {
        lemma_digits_value_nonneg(s.drop_last());
    }
}

/// Whether the characters from `start` on are decimal digits (at least one),
/// whether their value passes the cap, and the value when it does not.
pub(crate) fn read_digits(t: &str, start: usize) -> (r: (bool, bool, u128))
    requires
        start <= t@.len(),
    ensures
        r.0 == all_digits(t@.skip(start as int)),
        r.0 && !r.1 ==> r.2 == digits_value(t@.skip(start as int)) && r.2 <= NUMBER_CAP,
        r.0 && r.1 ==> digits_value(t@.skip(start as int)) > NUMBER_CAP,
{
    let n = t.unicode_len();
    if start >= n {
        return (false, false, 0);
    }
    let ghost d = t@.skip(start as int);
    let mut acc: u128 = 0;
    let mut big = false;
    let mut i: usize = start;
    while i < n
        invariant
            n == t@.len(),
            start < n,
            start <= i <= n,
            d == t@.skip(start as int),
            forall|j: int| 0 <= j < i - start ==> is_digit(#[trigger] d[j]),
            !big ==> acc == digits_value(d.take(i - start)) && acc <= NUMBER_CAP,
            big ==> digits_value(d.take(i - start)) > NUMBER_CAP,
        decreases n - i,
    {
        let c = t.get_char(i);
        assert(c == d[i - start]);
        if !(c >= '0' && c <= '9') {
            assert(!is_digit(d[i - start]));
            return (false, false, 0);
        }
        let ghost p = d.take(i - start);
        assert(d.take(i - start + 1).drop_last() =~= p);
        assert(d.take(i - start + 1).last() == c);
        proof {
            lemma_digits_value_nonneg(p);
        }
        if !big {
            acc = acc * 10 + (c as u32 - 48) as u128;
            if acc > NUMBER_CAP {
                big = true;
            }
        }
        i = i + 1;
    }
    assert(d.take(n - start) =~= d);
    (true, big, acc)
}

fn starts_with_dash(t: &str) -> (b: bool)
    ensures
        b == is_flag(t@),
{
    let n = t.unicode_len();
    n >= 2 && t.get_char(0) == '-'
}

fn starts_with_two_dashes(t: &str) -> (b: bool)
    ensures
        b == is_long(t@),
{
    let n = t.unicode_len();
    n >= 2 && t.get_char(0) == '-' && t.get_char(1) == '-'
}

/// Reads a positional value of the given kind.
pub(crate) fn read_value(kind: ValueKind, t: &str) -> (v: Option<ArgValue>)
    ensures
        match v {
            Some(a) => parse_value(kind, t@) == Some(arg_value_view(a)),
            None => parse_value(kind, t@) is None,
        },
{
    let n = t.unicode_len();
    match kind {
        ValueKind::Text => Some(ArgValue::Text(t.to_string())),
        ValueKind::State => {
            if str_equals(t, "on") {
                Some(ArgValue::State(OnOff::On))
            } else if str_equals(t, "off") {
                Some(ArgValue::State(OnOff::Off))
            } else {
                None
            }
        },
        ValueKind::Id => {
            let start: usize = if n > 0 && t.get_char(0) == '+' { 1 } else { 0 };
            assert(start == 0 ==> t@.skip(0) =~= t@);
            let (ok, big, val) = read_digits(t, start);
            if ok && !big && val <= u64::MAX as u128 {
                Some(ArgValue::Id(val as u64))
            } else {
                None
            }
        },
        _ => {
            let negative = n > 0 && t.get_char(0) == '-';
            let start: usize = if n > 0 && (t.get_char(0) == '+' || t.get_char(0) == '-') { 1 } else { 0 };
            assert(start == 0 ==> t@.skip(0) =~= t@);
            let (ok, big, val) = read_digits(t, start);
            if !ok || big {
                return None;
            }
            let value: i128 = if negative { -(val as i128) } else { val as i128 };
            match kind {
                ValueKind::Coord => {
                    if i32::MIN as i128 <= value && value <= i32::MAX as i128 {
                        Some(ArgValue::Coord(value as i32))
                    } else {
                        None
                    }
                },
                _ => {
                    if 0 <= value && value <= u32::MAX as i128 {
                        Some(ArgValue::Size(value as u32))
                    } else {
                        None
                    }
                },
            }
        },
    }
}

fn option_is_given(o: &ParsedOptions, kind: OptionKind) -> (b: bool)
    ensures
        b == option_given(options_view(*o), kind),
{
    match kind {
        OptionKind::Search => o.search.is_some(),
        OptionKind::Output => o.output.is_some(),
        OptionKind::Button => o.button.is_some(),
        OptionKind::Axis => o.axis.is_some(),
        OptionKind::Mod => false,
    }
}

/// Gives an option its value; `false` when the value is not one it accepts.
fn set_option(o: &mut ParsedOptions, kind: OptionKind, v: &str) -> (ok: bool)
    ensures
        match with_option(options_view(*old(o)), kind, v@) {
            Some(o2) => ok && options_view(*final(o)) == o2,
            None => !ok,
        },
{
    match kind {
        OptionKind::Search => {
            o.search = Some(v.to_string());
            true
        },
        OptionKind::Output => {
            if v.unicode_len() == 0 {
                false
            } else {
                o.output = Some(v.to_string());
                true
            }
        },
        OptionKind::Button => {
            if str_equals(v, "left") {
                o.button = Some(ButtonChoice::Left);
                true
            } else if str_equals(v, "right") {
                o.button = Some(ButtonChoice::Right);
                true
            } else if str_equals(v, "middle") {
                o.button = Some(ButtonChoice::Middle);
                true
            } else {
                false
            }
        },
        OptionKind::Axis => {
            if str_equals(v, "vertical") {
                o.axis = Some(ScrollAxisChoice::Vertical);
                true
            } else if str_equals(v, "horizontal") {
                o.axis = Some(ScrollAxisChoice::Horizontal);
                true
            } else {
                false
            }
        },
        OptionKind::Mod => {
            if str_equals(v, "shift") {
                o.mods.push(ModifierChoice::Shift);
                true
            } else if str_equals(v, "control") {
                o.mods.push(ModifierChoice::Control);
                true
            } else if str_equals(v, "alt") {
                o.mods.push(ModifierChoice::Alt);
                true
            } else if str_equals(v, "meta") {
                o.mods.push(ModifierChoice::Meta);
                true
            } else {
                false
            }
        },
    }
}

/// The name of a long flag and, after an `=`, its value.
fn split_long(t: &str) -> (r: (String, Option<String>))
    requires
        is_long(t@),
    ensures
        ({
            let body = t@.skip(2);
            let k = first_eq(body, 0);
            &&& r.0@ == body.take(k)
            &&& match r.1 {
                Some(v) => k < body.len() && v@ == body.skip(k + 1),
                None => k >= body.len(),
            }
        }),
{
    let n = t.unicode_len();
    let body = t.substring_char(2, n);
    let m = body.unicode_len();
    let mut k: usize = 0;
    assert(first_eq(body@, 0) == first_eq(body@, 0));
    while k < m
        invariant
            m == body@.len(),
            k <= m,
            first_eq(body@, 0) == first_eq(body@, k as int),
        ensures
            k <= m,
            first_eq(body@, 0) == k,
        decreases m - k,
    {
        if body.get_char(k) == '=' {
            break;
        }
        k = k + 1;
    }
    assert(body@ =~= t@.skip(2));
    let name = body.substring_char(0, k).to_string();
    assert(body@.subrange(0, k as int) =~= body@.take(k as int));
    if k < m {
        let value = body.substring_char(k + 1, m).to_string();
        assert(body@.subrange(k + 1, m as int) =~= body@.skip(k + 1));
        (name, Some(value))
    } else {
        (name, None)
    }
}

fn id_at(pos: &Vec<ArgValue>, k: usize) -> (n: u64)
    requires
        k < pos@.len(),
    ensures
        n == id_of(arg_value_view(pos@[k as int])),
{
    match &pos[k] {
        ArgValue::Id(n) => *n,
        _ => 0,
    }
}

fn coord_at(pos: &Vec<ArgValue>, k: usize) -> (n: i32)
    requires
        k < pos@.len(),
    ensures
        n == coord_of(arg_value_view(pos@[k as int])),
{
    match &pos[k] {
        ArgValue::Coord(n) => *n,
        _ => 0,
    }
}

fn size_at(pos: &Vec<ArgValue>, k: usize) -> (n: u32)
    requires
        k < pos@.len(),
    ensures
        n == size_of_value(arg_value_view(pos@[k as int])),
{
    match &pos[k] {
        ArgValue::Size(n) => *n,
        _ => 0,
    }
}

fn state_at(pos: &Vec<ArgValue>, k: usize) -> (s: OnOff)
    requires
        k < pos@.len(),
    ensures
        s == state_of(arg_value_view(pos@[k as int])),
{
    match &pos[k] {
        ArgValue::State(s) => *s,
        _ => OnOff::Off,
    }
}

fn text_at(pos: &Vec<ArgValue>, k: usize) -> (s: String)
    requires
        k < pos@.len(),
    ensures
        s@ == text_of(arg_value_view(pos@[k as int])),
{
    match &pos[k] {
        ArgValue::Text(s) => s.clone(),
        _ => String::new(),
    }
}

fn finish(sub: Subcommand, pos: &Vec<ArgValue>, o: ParsedOptions) -> (r: Result<CliCommand, CliError>)
    ensures
        command_result_view(r) == finish_command(sub, arg_values_view(pos@), options_view(o)),
{
    if pos.len() < positional_count(sub) {
        return Err(CliError::MissingArgument(subcommand_text(sub).to_string()));
    }
    if (sub == Subcommand::CaptureScreen || sub == Subcommand::CaptureWindow) && o.output.is_none() {
        return Err(CliError::MissingArgument("--output".to_string()));
    }
    let ghost pv = arg_values_view(pos@);
    let button = match o.button {
        Some(b) => b,
        None => ButtonChoice::Left,
    };
    let axis = match o.axis {
        Some(a) => a,
        None => ScrollAxisChoice::Vertical,
    };
    let output = match o.output {
        Some(s) => s,
        None => String::new(),
    };
    let cmd = match sub {
        Subcommand::ListWindows => CliCommand::ListWindows { search: o.search },
        Subcommand::WindowInfo => CliCommand::WindowInfo { id: id_at(pos, 0) },
        Subcommand::WindowAtPoint => CliCommand::WindowAtPoint { x: coord_at(pos, 0), y: coord_at(pos, 1) },
        Subcommand::CursorPosition => CliCommand::CursorPosition,
        Subcommand::Focus => CliCommand::Focus { id: id_at(pos, 0) },
        Subcommand::Move => CliCommand::Move { id: id_at(pos, 0), x: coord_at(pos, 1), y: coord_at(pos, 2) },
        Subcommand::Resize => CliCommand::Resize { id: id_at(pos, 0), width: size_at(pos, 1), height: size_at(pos, 2) },
        Subcommand::AlwaysOnTop => CliCommand::AlwaysOnTop { id: id_at(pos, 0), state: state_at(pos, 1) },
        Subcommand::CaptureScreen => CliCommand::CaptureScreen { output },
        Subcommand::CaptureWindow => CliCommand::CaptureWindow { id: id_at(pos, 0), output },
        Subcommand::SendText => CliCommand::SendText { text: text_at(pos, 0) },
        Subcommand::MoveMouse => CliCommand::MoveMouse { x: coord_at(pos, 0), y: coord_at(pos, 1) },
        Subcommand::Click => CliCommand::Click { x: coord_at(pos, 0), y: coord_at(pos, 1), button },
        Subcommand::MouseDown => CliCommand::MouseDown { x: coord_at(pos, 0), y: coord_at(pos, 1), button },
        Subcommand::MouseUp => CliCommand::MouseUp { x: coord_at(pos, 0), y: coord_at(pos, 1), button },
        Subcommand::Drag => CliCommand::Drag {
            start_x: coord_at(pos, 0),
            start_y: coord_at(pos, 1),
            end_x: coord_at(pos, 2),
            end_y: coord_at(pos, 3),
            button,
        },
        Subcommand::Scroll => CliCommand::Scroll { amount: coord_at(pos, 0), axis },
        Subcommand::KeyDown => CliCommand::KeyDown { key: text_at(pos, 0) },
        Subcommand::KeyUp => CliCommand::KeyUp { key: text_at(pos, 0) },
        Subcommand::KeyTap => CliCommand::KeyTap { key: text_at(pos, 0), modifiers: o.mods },
        Subcommand::CheckPermissions => CliCommand::CheckPermissions,
        Subcommand::Version => CliCommand::Version,
    };
    Ok(cmd)
}

/// Parses the arguments of a subcommand, from token `start` on.
fn parse_subcommand(args: &[&str], start: usize, sub: Subcommand) -> (r: Result<CliCommand, CliError>)
    requires
        start <= args@.len(),
    ensures
        command_result_view(r) == sub_walk(tokens(args@), start as int, sub, Seq::empty(), no_options(), false),
{
    let ghost toks = tokens(args@);
    let mut pos: Vec<ArgValue> = Vec::new();
    let mut opts = ParsedOptions { search: None, output: None, button: None, axis: None, mods: Vec::new() };
    let mut trailing = false;
    let mut i = start;
    assert(arg_values_view(pos@) =~= Seq::empty());
    assert(options_view(opts) == no_options());
    while i < args.len()
        invariant
            toks == tokens(args@),
            i <= args@.len(),
            sub_walk(toks, start as int, sub, Seq::empty(), no_options(), false) == sub_walk(
                toks,
                i as int,
                sub,
                arg_values_view(pos@),
                options_view(opts),
                trailing,
            ),
        decreases args@.len() - i,
    {
        let t: &str = args[i];
        assert(toks[i as int] == t@);
        if !trailing && str_equals(t, "--") {
            trailing = true;
            i = i + 1;
        } else if !trailing && starts_with_two_dashes(t) {
            let (name, value) = split_long(t);
            if equals_literal(&name, "help") {
                return match value {
                    Some(_) => Err(CliError::UnexpectedValue(t.to_string())),
                    None => Err(CliError::Help),
                };
            }
            let kind = match find_option(sub, &name) {
                None => {
                    return Err(CliError::UnexpectedArgument(t.to_string()));
                },
                Some(kind) => kind,
            };
            if option_is_given(&opts, kind) {
                return Err(CliError::RepeatedArgument(t.to_string()));
            }
            match value {
                Some(v) => {
                    if !set_option(&mut opts, kind, v.as_str()) {
                        return Err(CliError::InvalidValue(v));
                    }
                    i = i + 1;
                },
                None => {
                    if i + 1 < args.len() && !starts_with_dash(args[i + 1]) {
                        assert(toks[i + 1] == args@[i + 1]@);
                        let v: &str = args[i + 1];
                        if !set_option(&mut opts, kind, v) {
                            return Err(CliError::InvalidValue(v.to_string()));
                        }
                        i = i + 2;
                    } else {
                        if i + 1 < args.len() {
                            assert(toks[i + 1] == args@[i + 1]@);
                        }
                        return Err(CliError::MissingValue(t.to_string()));
                    }
                },
            }
        } else if !trailing && starts_with_dash(t) {
            if t.get_char(1) == 'h' {
                return Err(CliError::Help);
            } else {
                return Err(CliError::UnexpectedArgument(t.to_string()));
            }
        } else if pos.len() >= positional_count(sub) {
            return Err(CliError::UnexpectedArgument(t.to_string()));
        } else {
            let kind = positional_kind(sub, pos.len());
            match read_value(kind, t) {
                None => {
                    return Err(CliError::InvalidValue(t.to_string()));
                },
                Some(v) => {
                    let ghost before = pos@;
                    pos.push(v);
                    assert(arg_values_view(pos@) =~= arg_values_view(before).push(arg_value_view(v)));
                    i = i + 1;
                },
            }
        }
    }
    finish(sub, &pos, opts)
}

impl CliArgs {
    /// Parses a command line; the first token is the program's name.
    pub fn try_parse_from(args: &[&str]) -> (r: Result<CliArgs, CliError>)
        ensures
            args_result_view(r) == parse_command_line(tokens(args@)),
    {
        let ghost toks = tokens(args@);
        let mut cli = false;
        let mut i: usize = 1;
        while i < args.len()
            invariant
                toks == tokens(args@),
                1 <= i,
                i <= args@.len() || args@.len() == 0,
                parse_command_line(toks) == top_walk(toks, i as int, cli),
            decreases args@.len() - i,
        {
            let t: &str = args[i];
            assert(toks[i as int] == t@);
            if str_equals(t, "--") {
                if i + 1 < args.len() {
                    assert(toks[i + 1] == args@[i + 1]@);
                    return Err(CliError::UnexpectedArgument(args[i + 1].to_string()));
                }
                return Ok(CliArgs { cli, command: None });
            } else if starts_with_two_dashes(t) {
                let (name, value) = split_long(t);
                if equals_literal(&name, "cli") {
                    if value.is_some() {
                        return Err(CliError::UnexpectedValue(t.to_string()));
                    }
                    if cli {
                        return Err(CliError::RepeatedArgument(t.to_string()));
                    }
                    cli = true;
                    i = i + 1;
                } else if equals_literal(&name, "help") {
                    return match value {
                        Some(_) => Err(CliError::UnexpectedValue(t.to_string())),
                        None => Err(CliError::Help),
                    };
                } else {
                    return Err(CliError::UnexpectedArgument(t.to_string()));
                }
            } else if starts_with_dash(t) {
                if t.get_char(1) == 'h' {
                    return Err(CliError::Help);
                } else {
                    return Err(CliError::UnexpectedArgument(t.to_string()));
                }
            } else {
                return match find_subcommand(t) {
                    None => Err(CliError::UnknownSubcommand(t.to_string())),
                    Some(sub) => match parse_subcommand(args, i + 1, sub) {
                        Ok(command) => Ok(CliArgs { cli, command: Some(command) }),
                        Err(e) => Err(e),
                    },
                };
            }
        }
        Ok(CliArgs { cli, command: None })
    }
}

} // verus!
