//! The desktop window of the tool: what it holds, how it reacts to what the user
//! does, and the outside work (listing windows, moving them, capturing, typing)
//! that each reaction asks for. The work itself is done by the caller, which
//! hands its outcome back.
use vstd::prelude::*;

use crate::cli::{parse_value, read_value, ArgValue, ValueKind};
use crate::input::MouseButtonArg;
use crate::message::{button_choice_label, AppSection, MouseButtonChoice};
use crate::platform::{find_window, lemma_window_with_id, window_views, window_with_id, PermissionStatus, WindowInfo, WindowView};
use crate::text::{decimal, owned, push_all, str_trim, trim_ws};
use crate::cli::{bool_text, push_bool, push_i64};
use crate::message::section_label;
use crate::platform::{occurs_in, str_contains};
use crate::text::{str_to_lowercase, u64_to_string, unicode_lowercase};

verus! {

broadcast use vstd::string::group_string_axioms;

/// How a status line reads: as information, success, warning or error.
#[derive(Debug, Clone, Copy, PartialEq, Eq, Structural)]
pub enum StatusTone {
    Info,
    Success,
    Warning,
    Error,
}

/// What the user did, its text of type `S`.
#[derive(Debug, Clone)]
pub enum Message<S = String> {
    SelectSection(AppSection),
    RefreshWindows,
    SearchChanged(S),
    SelectWindow(u64),
    ToggleTrackMouse,
    Tick,
    FocusSelected,
    MoveXChanged(S),
    MoveYChanged(S),
    ApplyMove,
    SizeWChanged(S),
    SizeHChanged(S),
    ApplySize,
    ToggleAlwaysOnTop,
    CaptureSelectedWindow,
    CaptureScreen,
    InputTextChanged(S),
    SendInputText,
    ClickXChanged(S),
    ClickYChanged(S),
    SelectMouseButton(MouseButtonChoice),
    SendMouseClick,
    MoveMouseToPoint,
    ClearStatus,
}

pub open spec fn message_view(m: Message) -> Message<Seq<char>> {
    match m {
        Message::SelectSection(s) => Message::SelectSection(s),
        Message::RefreshWindows => Message::RefreshWindows,
        Message::SearchChanged(v) => Message::SearchChanged(v@),
        Message::SelectWindow(id) => Message::SelectWindow(id),
        Message::ToggleTrackMouse => Message::ToggleTrackMouse,
        Message::Tick => Message::Tick,
        Message::FocusSelected => Message::FocusSelected,
        Message::MoveXChanged(v) => Message::MoveXChanged(v@),
        Message::MoveYChanged(v) => Message::MoveYChanged(v@),
        Message::ApplyMove => Message::ApplyMove,
        Message::SizeWChanged(v) => Message::SizeWChanged(v@),
        Message::SizeHChanged(v) => Message::SizeHChanged(v@),
        Message::ApplySize => Message::ApplySize,
        Message::ToggleAlwaysOnTop => Message::ToggleAlwaysOnTop,
        Message::CaptureSelectedWindow => Message::CaptureSelectedWindow,
        Message::CaptureScreen => Message::CaptureScreen,
        Message::InputTextChanged(v) => Message::InputTextChanged(v@),
        Message::SendInputText => Message::SendInputText,
        Message::ClickXChanged(v) => Message::ClickXChanged(v@),
        Message::ClickYChanged(v) => Message::ClickYChanged(v@),
        Message::SelectMouseButton(b) => Message::SelectMouseButton(b),
        Message::SendMouseClick => Message::SendMouseClick,
        Message::MoveMouseToPoint => Message::MoveMouseToPoint,
        Message::ClearStatus => Message::ClearStatus,
    }
}

/// Outside work that a reaction asks for, its text of type `S`. Each kind has
/// a method of `AgentSpy` that takes its outcome.
#[derive(Debug, Clone)]
pub enum Effect<S = String> {
    /// Nothing to do.
    Nothing,
    /// List the windows (`windows_listed`); `announce` says that the refresh
    /// itself is reported.
    ListWindows { announce: bool },
    /// Read the cursor position (`cursor_read`).
    ReadCursor,
    /// Find the window at a point (`window_found`).
    LookupWindow { x: i32, y: i32 },
    /// Focus a window (`focus_done`).
    Focus { id: u64 },
    /// Move a window (`move_done`).
    Move { id: u64, x: i32, y: i32 },
    /// Resize a window (`resize_done`).
    Resize { id: u64, width: u32, height: u32 },
    /// Turn always-on-top on or off (`always_on_top_done`).
    SetAlwaysOnTop { id: u64, enabled: bool },
    /// Capture the screen area of a window, from the screen at its corner
    /// (`window_captured`).
    CaptureWindow { x: i32, y: i32, width: u32, height: u32 },
    /// Capture the screen at the cursor, or the first screen
    /// (`screen_captured`).
    CaptureScreen { near: Option<(i32, i32)> },
    /// Focus a window before typing into it (`text_focus_done`).
    FocusForText { id: u64 },
    /// Type the text (`text_sent`).
    SendText { text: S },
    /// Click at a point (`click_done`).
    Click { x: i32, y: i32, button: MouseButtonArg },
    /// Move the mouse to a point (`mouse_moved`).
    MoveMouse { x: i32, y: i32 },
}

pub open spec fn effect_view(e: Effect) -> Effect<Seq<char>> {
    match e {
        Effect::Nothing => Effect::Nothing,
        Effect::ListWindows { announce } => Effect::ListWindows { announce },
        Effect::ReadCursor => Effect::ReadCursor,
        Effect::LookupWindow { x, y } => Effect::LookupWindow { x, y },
        Effect::Focus { id } => Effect::Focus { id },
        Effect::Move { id, x, y } => Effect::Move { id, x, y },
        Effect::Resize { id, width, height } => Effect::Resize { id, width, height },
        Effect::SetAlwaysOnTop { id, enabled } => Effect::SetAlwaysOnTop { id, enabled },
        Effect::CaptureWindow { x, y, width, height } => Effect::CaptureWindow { x, y, width, height },
        Effect::CaptureScreen { near } => Effect::CaptureScreen { near },
        Effect::FocusForText { id } => Effect::FocusForText { id },
        Effect::SendText { text } => Effect::SendText { text: text@ },
        Effect::Click { x, y, button } => Effect::Click { x, y, button },
        Effect::MoveMouse { x, y } => Effect::MoveMouse { x, y },
    }
}

/// The state of the window, with texts as characters.
pub struct SpyView {
    pub permissions: PermissionStatus,
    pub windows: Seq<WindowView>,
    pub selected_window_id: Option<u64>,
    pub search_query: Seq<char>,
    pub track_mouse: bool,
    pub cursor_position: Option<(i32, i32)>,
    pub status: Seq<char>,
    pub status_tone: StatusTone,
    pub move_x: Seq<char>,
    pub move_y: Seq<char>,
    pub size_w: Seq<char>,
    pub size_h: Seq<char>,
    pub always_on_top: bool,
    pub input_text: Seq<char>,
    pub click_x: Seq<char>,
    pub click_y: Seq<char>,
    pub click_button: MouseButtonChoice,
    pub active_section: AppSection,
}

/// The desktop window's state.
pub struct AgentSpy {
    permissions: PermissionStatus,
    windows: Vec<WindowInfo>,
    selected_window_id: Option<u64>,
    search_query: String,
    track_mouse: bool,
    cursor_position: Option<(i32, i32)>,
    status: String,
    status_tone: StatusTone,
    move_x: String,
    move_y: String,
    size_w: String,
    size_h: String,
    always_on_top: bool,
    input_text: String,
    click_x: String,
    click_y: String,
    click_button: MouseButtonChoice,
    active_section: AppSection,
}

impl View for AgentSpy {
    type V = SpyView;

    closed spec fn view(&self) -> SpyView {
        SpyView {
            permissions: self.permissions,
            windows: window_views(self.windows@),
            selected_window_id: self.selected_window_id,
            search_query: self.search_query@,
            track_mouse: self.track_mouse,
            cursor_position: self.cursor_position,
            status: self.status@,
            status_tone: self.status_tone,
            move_x: self.move_x@,
            move_y: self.move_y@,
            size_w: self.size_w@,
            size_h: self.size_h@,
            always_on_top: self.always_on_top,
            input_text: self.input_text@,
            click_x: self.click_x@,
            click_y: self.click_y@,
            click_button: self.click_button,
            active_section: self.active_section,
        }
    }
}

pub open spec fn with_status(s: SpyView, tone: StatusTone, text: Seq<char>) -> SpyView {
    SpyView { status: text, status_tone: tone, ..s }
}

/// A coordinate typed by the user: a decimal `i32`, surrounding white space
/// ignored.
pub open spec fn field_i32(v: Seq<char>) -> Option<i32> {
    match parse_value(ValueKind::Coord, trim_ws(v)) {
        Some(ArgValue::Coord(n)) => Some(n),
        _ => None,
    }
}

/// A size typed by the user: a decimal `u32` with an optional `+`, surrounding
/// white space ignored; it reads as an unsigned number does on the command line.
pub open spec fn field_u32(v: Seq<char>) -> Option<u32> {
    match parse_value(ValueKind::Id, trim_ws(v)) {
        Some(ArgValue::Id(n)) => if n <= u32::MAX { Some(n as u32) } else { None },
        _ => None,
    }
}

pub open spec fn invalid_field(field: Seq<char>, value: Seq<char>) -> Seq<char> {
    "Invalid "@ + field + ": "@ + value
}

/// The selected window, while it is still listed.
pub open spec fn selected_window(s: SpyView) -> Option<WindowView> {
    match s.selected_window_id {
        Some(id) => match window_with_id(s.windows, id) {
            Some(k) => Some(s.windows[k]),
            None => None,
        },
        None => None,
    }
}

pub open spec fn choice_button(b: MouseButtonChoice) -> MouseButtonArg {
    match b {
        MouseButtonChoice::Left => MouseButtonArg::Left,
        MouseButtonChoice::Right => MouseButtonArg::Right,
        MouseButtonChoice::Middle => MouseButtonArg::Middle,
    }
}

/// Two fields read as coordinates, the first failing one reported as an error.
pub open spec fn two_coords(
    s: SpyView,
    a: Seq<char>,
    fa: Seq<char>,
    b: Seq<char>,
    fb: Seq<char>,
) -> Result<(i32, i32), SpyView> {
    match field_i32(a) {
        None => Err(with_status(s, StatusTone::Error, invalid_field(fa, a))),
        Some(x) => match field_i32(b) {
            None => Err(with_status(s, StatusTone::Error, invalid_field(fb, b))),
            Some(y) => Ok((x, y)),
        },
    }
}

pub open spec fn react_select_window(s: SpyView, id: u64) -> (SpyView, Effect<Seq<char>>) {
    let s1 = SpyView { selected_window_id: Some(id), ..s };
    match window_with_id(s.windows, id) {
        Some(k) => {
            let w = s.windows[k];
            (
                with_status(
                    SpyView {
                        move_x: decimal(w.x as int),
                        move_y: decimal(w.y as int),
                        size_w: decimal(w.width as int),
                        size_h: decimal(w.height as int),
                        ..s1
                    },
                    StatusTone::Info,
                    "Selected window: "@ + w.title,
                ),
                Effect::Nothing,
            )
        },
        None => (s1, Effect::Nothing),
    }
}

pub open spec fn react_toggle_track_mouse(s: SpyView) -> (SpyView, Effect<Seq<char>>) {
    if s.permissions.cursor_tracking {
        let s1 = SpyView { track_mouse: !s.track_mouse, ..s };
        if s1.track_mouse {
            (with_status(s1, StatusTone::Success, "Tracking mouse enabled."@), Effect::Nothing)
        } else {
            (with_status(s1, StatusTone::Info, "Tracking mouse disabled."@), Effect::Nothing)
        }
    } else {
        (s, Effect::Nothing)
    }
}

pub open spec fn react_apply_move(s: SpyView) -> (SpyView, Effect<Seq<char>>) {
    if s.permissions.accessibility {
        match s.selected_window_id {
            Some(id) => match two_coords(s, s.move_x, "X"@, s.move_y, "Y"@) {
                Ok((x, y)) => (s, Effect::Move { id, x, y }),
                Err(s1) => (s1, Effect::Nothing),
            },
            None => (s, Effect::Nothing),
        }
    } else {
        (s, Effect::Nothing)
    }
}

pub open spec fn react_apply_size(s: SpyView) -> (SpyView, Effect<Seq<char>>) {
    if s.permissions.accessibility {
        match s.selected_window_id {
            Some(id) => match field_u32(s.size_w) {
                None => (with_status(s, StatusTone::Error, invalid_field("width"@, s.size_w)), Effect::Nothing),
                Some(width) => match field_u32(s.size_h) {
                    None => (with_status(s, StatusTone::Error, invalid_field("height"@, s.size_h)), Effect::Nothing),
                    Some(height) => (s, Effect::Resize { id, width, height }),
                },
            },
            None => (s, Effect::Nothing),
        }
    } else {
        (s, Effect::Nothing)
    }
}

pub open spec fn react_toggle_always_on_top(s: SpyView) -> (SpyView, Effect<Seq<char>>) {
    if s.permissions.accessibility {
        match s.selected_window_id {
            Some(id) => (
                SpyView { always_on_top: !s.always_on_top, ..s },
                Effect::SetAlwaysOnTop { id, enabled: !s.always_on_top },
            ),
            None => (s, Effect::Nothing),
        }
    } else {
        (s, Effect::Nothing)
    }
}

pub open spec fn react_capture_selected_window(s: SpyView) -> (SpyView, Effect<Seq<char>>) {
    if !s.permissions.screen_capture {
        (s, Effect::Nothing)
    } else if s.selected_window_id is None {
        (with_status(s, StatusTone::Warning, "Select a window first."@), Effect::Nothing)
    } else {
        match selected_window(s) {
            Some(w) => (
                s,
                Effect::CaptureWindow {
                    x: w.x,
                    y: w.y,
                    width: if w.width == 0 { 1 } else { w.width },
                    height: if w.height == 0 { 1 } else { w.height },
                },
            ),
            None => (with_status(s, StatusTone::Warning, "Selected window no longer available."@), Effect::Nothing),
        }
    }
}

pub open spec fn react_send_input_text(s: SpyView) -> (SpyView, Effect<Seq<char>>) {
    if !s.permissions.input_simulation {
        (s, Effect::Nothing)
    } else if trim_ws(s.input_text).len() == 0 {
        (with_status(s, StatusTone::Warning, "Enter text before sending."@), Effect::Nothing)
    } else {
        match s.selected_window_id {
            Some(id) if s.permissions.accessibility => (s, Effect::FocusForText { id }),
            _ => (s, Effect::SendText { text: s.input_text }),
        }
    }
}

pub open spec fn react_send_mouse_click(s: SpyView) -> (SpyView, Effect<Seq<char>>) {
    if s.permissions.input_simulation {
        match two_coords(s, s.click_x, "click X"@, s.click_y, "click Y"@) {
            Ok((x, y)) => (s, Effect::Click { x, y, button: choice_button(s.click_button) }),
            Err(s1) => (s1, Effect::Nothing),
        }
    } else {
        (s, Effect::Nothing)
    }
}

pub open spec fn react_move_mouse_to_point(s: SpyView) -> (SpyView, Effect<Seq<char>>) {
    if s.permissions.input_simulation {
        match two_coords(s, s.click_x, "mouse X"@, s.click_y, "mouse Y"@) {
            Ok((x, y)) => (s, Effect::MoveMouse { x, y }),
            Err(s1) => (s1, Effect::Nothing),
        }
    } else {
        (s, Effect::Nothing)
    }
}

/// The reaction to a user action: the new state and the outside work to do.
pub open spec fn spec_update(s: SpyView, m: Message<Seq<char>>) -> (SpyView, Effect<Seq<char>>) {
    match m {
        Message::SelectSection(sec) => (SpyView { active_section: sec, ..s }, Effect::Nothing),
        Message::RefreshWindows => (s, Effect::ListWindows { announce: true }),
        Message::SearchChanged(v) => (SpyView { search_query: v, ..s }, Effect::Nothing),
        Message::SelectWindow(id) => react_select_window(s, id),
        Message::ToggleTrackMouse => react_toggle_track_mouse(s),
        Message::Tick => if s.track_mouse {
            (s, Effect::ReadCursor)
        } else {
            (s, Effect::ListWindows { announce: false })
        },
        Message::FocusSelected => if s.permissions.accessibility {
            match s.selected_window_id {
                Some(id) => (s, Effect::Focus { id }),
                None => (s, Effect::Nothing),
            }
        } else {
            (s, Effect::Nothing)
        },
        Message::MoveXChanged(v) => (SpyView { move_x: v, ..s }, Effect::Nothing),
        Message::MoveYChanged(v) => (SpyView { move_y: v, ..s }, Effect::Nothing),
        Message::ApplyMove => react_apply_move(s),
        Message::SizeWChanged(v) => (SpyView { size_w: v, ..s }, Effect::Nothing),
        Message::SizeHChanged(v) => (SpyView { size_h: v, ..s }, Effect::Nothing),
        Message::ApplySize => react_apply_size(s),
        Message::ToggleAlwaysOnTop => react_toggle_always_on_top(s),
        Message::CaptureSelectedWindow => react_capture_selected_window(s),
        Message::CaptureScreen => if s.permissions.screen_capture {
            (s, Effect::CaptureScreen { near: s.cursor_position })
        } else {
            (s, Effect::Nothing)
        },
        Message::InputTextChanged(v) => (SpyView { input_text: v, ..s }, Effect::Nothing),
        Message::SendInputText => react_send_input_text(s),
        Message::ClickXChanged(v) => (SpyView { click_x: v, ..s }, Effect::Nothing),
        Message::ClickYChanged(v) => (SpyView { click_y: v, ..s }, Effect::Nothing),
        Message::SelectMouseButton(b) => (SpyView { click_button: b, ..s }, Effect::Nothing),
        Message::SendMouseClick => react_send_mouse_click(s),
        Message::MoveMouseToPoint => react_move_mouse_to_point(s),
        Message::ClearStatus => (with_status(s, StatusTone::Info, Seq::empty()), Effect::Nothing),
    }
}

fn concat(head: &str, tail: &str) -> (s: String)
    ensures
        s@ == head@ + tail@,
{
    let mut s = owned(head);
    push_all(&mut s, tail);
    s
}

fn decimal_i32(n: i32) -> (s: String)
    ensures
        s@ == decimal(n as int),
{
    let mut s = String::new();
    assert(s@ =~= Seq::<char>::empty());
    push_i64(&mut s, n as i64);
    assert(s@ =~= decimal(n as int));
    s
}

fn decimal_u32(n: u32) -> (s: String)
    ensures
        s@ == decimal(n as int),
{
    let mut s = String::new();
    assert(s@ =~= Seq::<char>::empty());
    push_i64(&mut s, n as i64);
    assert(s@ =~= decimal(n as int));
    s
}

/// Reads a coordinate field.
fn read_i32_field(value: &String, field: &str) -> (r: Result<i32, String>)
    ensures
        match r {
            Ok(n) => field_i32(value@) == Some(n),
            Err(m) => field_i32(value@) is None && m@ == invalid_field(field@, value@),
        },
{
    let t = str_trim(value.as_str());
    match read_value(ValueKind::Coord, t) {
        Some(ArgValue::Coord(n)) => Ok(n),
        _ => {
            let mut m = owned("Invalid ");
            push_all(&mut m, field);
            push_all(&mut m, ": ");
            push_all(&mut m, value.as_str());
            Err(m)
        },
    }
}

/// Reads a size field.
fn read_u32_field(value: &String, field: &str) -> (r: Result<u32, String>)
    ensures
        match r {
            Ok(n) => field_u32(value@) == Some(n),
            Err(m) => field_u32(value@) is None && m@ == invalid_field(field@, value@),
        },
{
    let t = str_trim(value.as_str());
    match read_value(ValueKind::Id, t) {
        Some(ArgValue::Id(n)) => {
            if n <= u32::MAX as u64 {
                return Ok(n as u32);
            }
        },
        _ => {},
    }
    let mut m = owned("Invalid ");
    push_all(&mut m, field);
    push_all(&mut m, ": ");
    push_all(&mut m, value.as_str());
    Err(m)
}

impl AgentSpy {
    fn set_status(&mut self, tone: StatusTone, text: String)
        ensures
            final(self)@ == with_status(old(self)@, tone, text@),
    {
        self.status = text;
        self.status_tone = tone;
    }

    fn selected_mouse_button(&self) -> (b: MouseButtonArg)
        ensures
            b == choice_button(self@.click_button),
    {
        match self.click_button {
            MouseButtonChoice::Left => MouseButtonArg::Left,
            MouseButtonChoice::Right => MouseButtonArg::Right,
            MouseButtonChoice::Middle => MouseButtonArg::Middle,
        }
    }

    fn select_window(&mut self, window_id: u64) -> (effect: Effect)
        ensures
            (final(self)@, effect_view(effect)) == react_select_window(old(self)@, window_id),
    {
        self.selected_window_id = Some(window_id);
        proof {
            lemma_window_with_id(window_views(self.windows@), window_id);
        }
        match find_window(&self.windows, window_id) {
            Some(w) => {
                self.move_x = decimal_i32(w.x);
                self.move_y = decimal_i32(w.y);
                self.size_w = decimal_u32(w.width);
                self.size_h = decimal_u32(w.height);
                let text = concat("Selected window: ", w.title.as_str());
                self.set_status(StatusTone::Info, text);
            },
            None => {},
        }
        Effect::Nothing
    }

    fn toggle_track_mouse(&mut self) -> (effect: Effect)
        ensures
            (final(self)@, effect_view(effect)) == react_toggle_track_mouse(old(self)@),
    {
        if self.permissions.cursor_tracking {
            self.track_mouse = !self.track_mouse;
            if self.track_mouse {
                self.set_status(StatusTone::Success, owned("Tracking mouse enabled."));
            } else {
                self.set_status(StatusTone::Info, owned("Tracking mouse disabled."));
            }
        }
        Effect::Nothing
    }

    fn apply_move(&mut self) -> (effect: Effect)
        ensures
            (final(self)@, effect_view(effect)) == react_apply_move(old(self)@),
    {
        if !self.permissions.accessibility {
            return Effect::Nothing;
        }
        match self.selected_window_id {
            Some(id) => {
                let x = match read_i32_field(&self.move_x, "X") {
                    Ok(v) => v,
                    Err(e) => {
                        self.set_status(StatusTone::Error, e);
                        return Effect::Nothing;
                    },
                };
                let y = match read_i32_field(&self.move_y, "Y") {
                    Ok(v) => v,
                    Err(e) => {
                        self.set_status(StatusTone::Error, e);
                        return Effect::Nothing;
                    },
                };
                Effect::Move { id, x, y }
            },
            None => Effect::Nothing,
        }
    }

    fn apply_size(&mut self) -> (effect: Effect)
        ensures
            (final(self)@, effect_view(effect)) == react_apply_size(old(self)@),
    {
        if !self.permissions.accessibility {
            return Effect::Nothing;
        }
        match self.selected_window_id {
            Some(id) => {
                let width = match read_u32_field(&self.size_w, "width") {
                    Ok(v) => v,
                    Err(e) => {
                        self.set_status(StatusTone::Error, e);
                        return Effect::Nothing;
                    },
                };
                let height = match read_u32_field(&self.size_h, "height") {
                    Ok(v) => v,
                    Err(e) => {
                        self.set_status(StatusTone::Error, e);
                        return Effect::Nothing;
                    },
                };
                Effect::Resize { id, width, height }
            },
            None => Effect::Nothing,
        }
    }

    fn toggle_always_on_top(&mut self) -> (effect: Effect)
        ensures
            (final(self)@, effect_view(effect)) == react_toggle_always_on_top(old(self)@),
    {
        if !self.permissions.accessibility {
            return Effect::Nothing;
        }
        match self.selected_window_id {
            Some(id) => {
                self.always_on_top = !self.always_on_top;
                Effect::SetAlwaysOnTop { id, enabled: self.always_on_top }
            },
            None => Effect::Nothing,
        }
    }

    fn capture_selected_window(&mut self) -> (effect: Effect)
        ensures
            (final(self)@, effect_view(effect)) == react_capture_selected_window(old(self)@),
    {
        if !self.permissions.screen_capture {
            return Effect::Nothing;
        }
        match self.selected_window_id {
            None => {
                self.set_status(StatusTone::Warning, owned("Select a window first."));
                Effect::Nothing
            },
            Some(id) => match find_window(&self.windows, id) {
                Some(w) => {
                    proof {
                        lemma_window_with_id(window_views(self.windows@), id);
                    }
                    let width: u32 = if w.width == 0 { 1 } else { w.width };
                    let height: u32 = if w.height == 0 { 1 } else { w.height };
                    Effect::CaptureWindow { x: w.x, y: w.y, width, height }
                },
                None => {
                    self.set_status(StatusTone::Warning, owned("Selected window no longer available."));
                    Effect::Nothing
                },
            },
        }
    }

    fn send_input_text(&mut self) -> (effect: Effect)
        ensures
            (final(self)@, effect_view(effect)) == react_send_input_text(old(self)@),
    {
        if !self.permissions.input_simulation {
            return Effect::Nothing;
        }
        let trimmed = str_trim(self.input_text.as_str());
        if trimmed.unicode_len() == 0 {
            self.set_status(StatusTone::Warning, owned("Enter text before sending."));
            return Effect::Nothing;
        }
        match self.selected_window_id {
            Some(id) => {
                if self.permissions.accessibility {
                    return Effect::FocusForText { id };
                }
            },
            None => {},
        }
        Effect::SendText { text: self.input_text.clone() }
    }

    fn pointer_fields(&mut self, fx: &str, fy: &str) -> (r: Option<(i32, i32)>)
        ensures
            match two_coords(old(self)@, old(self)@.click_x, fx@, old(self)@.click_y, fy@) {
                Ok(p) => r == Some(p) && final(self)@ == old(self)@,
                Err(s1) => r is None && final(self)@ == s1,
            },
    {
        let x = match read_i32_field(&self.click_x, fx) {
            Ok(v) => v,
            Err(e) => {
                self.set_status(StatusTone::Error, e);
                return None;
            },
        };
        let y = match read_i32_field(&self.click_y, fy) {
            Ok(v) => v,
            Err(e) => {
                self.set_status(StatusTone::Error, e);
                return None;
            },
        };
        Some((x, y))
    }

    fn send_mouse_click(&mut self) -> (effect: Effect)
        ensures
            (final(self)@, effect_view(effect)) == react_send_mouse_click(old(self)@),
    {
        if !self.permissions.input_simulation {
            return Effect::Nothing;
        }
        match self.pointer_fields("click X", "click Y") {
            Some((x, y)) => Effect::Click { x, y, button: self.selected_mouse_button() },
            None => Effect::Nothing,
        }
    }

    fn move_mouse_to_point(&mut self) -> (effect: Effect)
        ensures
            (final(self)@, effect_view(effect)) == react_move_mouse_to_point(old(self)@),
    {
        if !self.permissions.input_simulation {
            return Effect::Nothing;
        }
        match self.pointer_fields("mouse X", "mouse Y") {
            Some((x, y)) => Effect::MoveMouse { x, y },
            None => Effect::Nothing,
        }
    }

    /// The state's reaction to what the user did; the outside work it asks
    /// for is returned.
    pub fn update(&mut self, message: Message) -> (effect: Effect)
        ensures
            (final(self)@, effect_view(effect)) == spec_update(old(self)@, message_view(message)),
    {
        match message {
            Message::SelectSection(section) => {
                self.active_section = section;
                Effect::Nothing
            },
            Message::RefreshWindows => Effect::ListWindows { announce: true },
            Message::SearchChanged(value) => {
                self.search_query = value;
                Effect::Nothing
            },
            Message::SelectWindow(window_id) => self.select_window(window_id),
            Message::ToggleTrackMouse => self.toggle_track_mouse(),
            Message::Tick => if self.track_mouse {
                Effect::ReadCursor
            } else {
                Effect::ListWindows { announce: false }
            },
            Message::FocusSelected => {
                if !self.permissions.accessibility {
                    return Effect::Nothing;
                }
                match self.selected_window_id {
                    Some(id) => Effect::Focus { id },
                    None => Effect::Nothing,
                }
            },
            Message::MoveXChanged(value) => {
                self.move_x = value;
                Effect::Nothing
            },
            Message::MoveYChanged(value) => {
                self.move_y = value;
                Effect::Nothing
            },
            Message::ApplyMove => self.apply_move(),
            Message::SizeWChanged(value) => {
                self.size_w = value;
                Effect::Nothing
            },
            Message::SizeHChanged(value) => {
                self.size_h = value;
                Effect::Nothing
            },
            Message::ApplySize => self.apply_size(),
            Message::ToggleAlwaysOnTop => self.toggle_always_on_top(),
            Message::CaptureSelectedWindow => self.capture_selected_window(),
            Message::CaptureScreen => {
                if !self.permissions.screen_capture {
                    return Effect::Nothing;
                }
                Effect::CaptureScreen { near: self.cursor_position }
            },
            Message::InputTextChanged(value) => {
                self.input_text = value;
                Effect::Nothing
            },
            Message::SendInputText => self.send_input_text(),
            Message::ClickXChanged(value) => {
                self.click_x = value;
                Effect::Nothing
            },
            Message::ClickYChanged(value) => {
                self.click_y = value;
                Effect::Nothing
            },
            Message::SelectMouseButton(choice) => {
                self.click_button = choice;
                Effect::Nothing
            },
            Message::SendMouseClick => self.send_mouse_click(),
            Message::MoveMouseToPoint => self.move_mouse_to_point(),
            Message::ClearStatus => {
                let empty = String::new();
                self.set_status(StatusTone::Info, empty);
                Effect::Nothing
            },
        }
    }
}

/// The state once a window listing came back: on success the windows are
/// replaced and a selection of a window no longer listed is dropped; on failure
/// the failure is reported. A refresh that the user asked for is then reported
/// as done.
pub open spec fn after_listing(s: SpyView, r: Result<Seq<WindowView>, Seq<char>>, announce: bool) -> SpyView {
    let s1 = match r {
        Ok(ws) => SpyView {
            windows: ws,
            selected_window_id: match s.selected_window_id {
                Some(id) => if window_with_id(ws, id) is Some { Some(id) } else { None },
                None => None,
            },
            ..s
        },
        Err(e) => with_status(s, StatusTone::Error, "Failed to list windows: "@ + e),
    };
    if announce {
        with_status(s1, StatusTone::Info, "Window list refreshed."@)
    } else {
        s1
    }
}

pub open spec fn listing_view(r: Result<Vec<WindowInfo>, String>) -> Result<Seq<WindowView>, Seq<char>> {
    match r {
        Ok(ws) => Ok(window_views(ws@)),
        Err(e) => Err(e@),
    }
}

/// A report of the outcome of outside work: `done` on success, `failed` and
/// the error otherwise.
pub open spec fn outcome_status(s: SpyView, r: Result<(), Seq<char>>, done: Seq<char>, failed: Seq<char>) -> SpyView {
    match r {
        Ok(()) => with_status(s, StatusTone::Success, done),
        Err(e) => with_status(s, StatusTone::Error, failed + e),
    }
}

pub open spec fn unit_view(r: Result<(), String>) -> Result<(), Seq<char>> {
    match r {
        Ok(()) => Ok(()),
        Err(e) => Err(e@),
    }
}

/// The state once turning always-on-top on or off came back: reported on
/// success; on failure reported, and the toggle undone.
pub open spec fn after_always_on_top(s: SpyView, r: Result<(), Seq<char>>) -> SpyView {
    match r {
        Ok(()) => if s.always_on_top {
            with_status(s, StatusTone::Success, "Always-on-top enabled."@)
        } else {
            with_status(s, StatusTone::Info, "Always-on-top disabled."@)
        },
        Err(e) => with_status(
            SpyView { always_on_top: !s.always_on_top, ..s },
            StatusTone::Error,
            "Always-on-top failed: "@ + e,
        ),
    }
}

/// Toggling always-on-top asks the platform for the opposite of the current
/// setting; when the platform refuses, the setting is what it was before the
/// toggle, and when it agrees, the setting is the one asked for.
pub proof fn lemma_always_on_top_toggle(s: SpyView, r: Result<(), Seq<char>>)
    requires
        s.permissions.accessibility,
        s.selected_window_id is Some,
    ensures
        ({
            let (s1, e) = spec_update(s, Message::ToggleAlwaysOnTop);
            &&& e == Effect::<Seq<char>>::SetAlwaysOnTop { id: s.selected_window_id->0, enabled: !s.always_on_top }
            &&& after_always_on_top(s1, r).always_on_top == (if r is Ok { !s.always_on_top } else { s.always_on_top })
        }),
{
}

/// No reaction to the user changes the session's features or the list of
/// windows; only a listing replaces the list, and a selection that outlives a
/// listing names a listed window.
pub proof fn lemma_reactions_keep_session(
    s: SpyView,
    m: Message<Seq<char>>,
    r: Result<Seq<WindowView>, Seq<char>>,
    announce: bool,
)
    ensures
        spec_update(s, m).0.permissions == s.permissions,
        spec_update(s, m).0.windows == s.windows,
        after_listing(s, r, announce).permissions == s.permissions,
        r is Ok ==> after_listing(s, r, announce).windows == r->Ok_0,
        r is Err ==> after_listing(s, r, announce).windows == s.windows,
        (r is Ok && after_listing(s, r, announce).selected_window_id is Some) ==> window_with_id(
            r->Ok_0,
            after_listing(s, r, announce).selected_window_id->0,
        ) is Some,
{
}

/// The features that the session lacks, by name, in a fixed order.
pub open spec fn missing_features(p: PermissionStatus) -> Seq<Seq<char>> {
    (if p.screen_capture { seq![] } else { seq!["screen capture"@] }) + (if p.accessibility {
        seq![]
    } else {
        seq!["window manipulation"@]
    }) + (if p.input_simulation { seq![] } else { seq!["input simulation"@] }) + (if p.cursor_tracking {
        seq![]
    } else {
        seq!["cursor tracking"@]
    })
}

/// The items separated by `", "`.
pub open spec fn comma_list(items: Seq<Seq<char>>) -> Seq<char>
    decreases items.len(),
{
    if items.len() == 0 {
        Seq::empty()
    } else if items.len() == 1 {
        items[0]
    } else {
        comma_list(items.drop_last()) + ", "@ + items.last()
    }
}

/// The status at start-up: ready when every feature is available, else a
/// warning that names the missing ones.
pub open spec fn startup_status(s: SpyView) -> SpyView {
    let missing = missing_features(s.permissions);
    if missing.len() == 0 {
        with_status(s, StatusTone::Success, "Ready."@)
    } else {
        with_status(
            s,
            StatusTone::Warning,
            "Startup checks: unavailable features: "@ + comma_list(missing) + "."@,
        )
    }
}

/// The state when the window opens: nothing selected or typed, the overview
/// section shown, the left button chosen, not tracking.
pub open spec fn initial_view(p: PermissionStatus) -> SpyView {
    SpyView {
        permissions: p,
        windows: Seq::empty(),
        selected_window_id: None,
        search_query: Seq::empty(),
        track_mouse: false,
        cursor_position: None,
        status: Seq::empty(),
        status_tone: StatusTone::Info,
        move_x: Seq::empty(),
        move_y: Seq::empty(),
        size_w: Seq::empty(),
        size_h: Seq::empty(),
        always_on_top: false,
        input_text: Seq::empty(),
        click_x: Seq::empty(),
        click_y: Seq::empty(),
        click_button: MouseButtonChoice::Left,
        active_section: AppSection::Overview,
    }
}

fn push_feature(s: &mut String, first: &mut bool, name: &str, available: bool, ghost_items: Ghost<Seq<Seq<char>>>) -> (items: Ghost<Seq<Seq<char>>>)
    requires
        *old(first) == (ghost_items@.len() == 0),
        old(s)@ == comma_list(ghost_items@),
    ensures
        items@ == (if available { ghost_items@ } else { ghost_items@.push(name@) }),
        *final(first) == (items@.len() == 0),
        final(s)@ == comma_list(items@),
{
    if available {
        return ghost_items;
    }
    let ghost items = ghost_items@.push(name@);
    if !*first {
        push_all(s, ", ");
    }
    push_all(s, name);
    *first = false;
    assert(items.drop_last() =~= ghost_items@);
    Ghost(items)
}

impl AgentSpy {
    /// The window as it opens, once the windows were listed (or listing them
    /// failed), with its start-up status.
    pub fn new(permissions: PermissionStatus, listed: Result<Vec<WindowInfo>, String>) -> (spy: AgentSpy)
        ensures
            spy@ == startup_status(after_listing(initial_view(permissions), listing_view(listed), false)),
    {
        let mut spy = AgentSpy {
            permissions,
            windows: Vec::new(),
            selected_window_id: None,
            search_query: String::new(),
            track_mouse: false,
            cursor_position: None,
            status: String::new(),
            status_tone: StatusTone::Info,
            move_x: String::new(),
            move_y: String::new(),
            size_w: String::new(),
            size_h: String::new(),
            always_on_top: false,
            input_text: String::new(),
            click_x: String::new(),
            click_y: String::new(),
            click_button: MouseButtonChoice::Left,
            active_section: AppSection::Overview,
        };
        assert(window_views(spy.windows@) =~= Seq::<WindowView>::empty());
        assert(spy.search_query@ =~= Seq::<char>::empty());
        assert(spy.status@ =~= Seq::<char>::empty());
        assert(spy@ =~= initial_view(permissions));
        spy.windows_listed(listed, false);
        spy.set_startup_status();
        spy
    }

    fn set_startup_status(&mut self)
        ensures
            final(self)@ == startup_status(old(self)@),
    {
        let p = self.permissions;
        let mut list = String::new();
        let mut first = true;
        let ghost g0: Seq<Seq<char>> = Seq::empty();
        assert(list@ =~= comma_list(g0));
        let g1 = push_feature(&mut list, &mut first, "screen capture", p.screen_capture, Ghost(g0));
        let g2 = push_feature(&mut list, &mut first, "window manipulation", p.accessibility, g1);
        let g3 = push_feature(&mut list, &mut first, "input simulation", p.input_simulation, g2);
        let g4 = push_feature(&mut list, &mut first, "cursor tracking", p.cursor_tracking, g3);
        assert(g4@ =~= missing_features(p));
        if first {
            self.set_status(StatusTone::Success, owned("Ready."));
        } else {
            let mut text = owned("Startup checks: unavailable features: ");
            push_all(&mut text, list.as_str());
            push_all(&mut text, ".");
            self.set_status(StatusTone::Warning, text);
        }
    }

    /// Takes the outcome of listing the windows.
    pub fn windows_listed(&mut self, listed: Result<Vec<WindowInfo>, String>, announce: bool)
        ensures
            final(self)@ == after_listing(old(self)@, listing_view(listed), announce),
    {
        match listed {
            Ok(ws) => {
                self.windows = ws;
                match self.selected_window_id {
                    Some(id) => {
                        if find_window(&self.windows, id).is_none() {
                            self.selected_window_id = None;
                        }
                    },
                    None => {},
                }
            },
            Err(e) => {
                let text = concat("Failed to list windows: ", e.as_str());
                self.set_status(StatusTone::Error, text);
            },
        }
        if announce {
            self.set_status(StatusTone::Info, owned("Window list refreshed."));
        }
    }

    /// Takes the cursor position read while tracking; the window under it is
    /// then looked up.
    pub fn cursor_read(&mut self, position: Option<(i32, i32)>) -> (effect: Effect)
        ensures
            final(self)@ == (SpyView { cursor_position: position, ..old(self)@ }),
            effect_view(effect) == match position {
                Some((x, y)) => Effect::<Seq<char>>::LookupWindow { x, y },
                None => Effect::<Seq<char>>::Nothing,
            },
    {
        self.cursor_position = position;
        match position {
            Some((x, y)) => Effect::LookupWindow { x, y },
            None => Effect::Nothing,
        }
    }

    /// Takes the window found under the cursor: it becomes the selection.
    pub fn window_found(&mut self, found: Result<Option<WindowInfo>, String>)
        ensures
            final(self)@ == match found {
                Ok(Some(w)) => SpyView { selected_window_id: Some(w.id), ..old(self)@ },
                Ok(None) => old(self)@,
                Err(e) => with_status(old(self)@, StatusTone::Error, "Window lookup failed: "@ + e@),
            },
    {
        match found {
            Ok(Some(w)) => self.selected_window_id = Some(w.id),
            Ok(None) => {},
            Err(e) => {
                let text = concat("Window lookup failed: ", e.as_str());
                self.set_status(StatusTone::Error, text);
            },
        }
    }

    fn report(&mut self, r: Result<(), String>, done: &str, failed: &str)
        ensures
            final(self)@ == outcome_status(old(self)@, unit_view(r), done@, failed@),
    {
        match r {
            Ok(()) => self.set_status(StatusTone::Success, owned(done)),
            Err(e) => {
                let text = concat(failed, e.as_str());
                self.set_status(StatusTone::Error, text);
            },
        }
    }

    /// Takes the outcome of focusing the selected window.
    pub fn focus_done(&mut self, r: Result<(), String>)
        ensures
            final(self)@ == outcome_status(old(self)@, unit_view(r), "Focused selected window."@, "Focus failed: "@),
    {
        self.report(r, "Focused selected window.", "Focus failed: ")
    }

    /// Takes the outcome of moving the selected window; after a move the
    /// windows are listed again.
    pub fn move_done(&mut self, r: Result<(), String>) -> (effect: Effect)
        ensures
            final(self)@ == outcome_status(old(self)@, unit_view(r), "Window moved."@, "Move failed: "@),
            effect_view(effect) == (if r is Ok {
                Effect::<Seq<char>>::ListWindows { announce: false }
            } else {
                Effect::<Seq<char>>::Nothing
            }),
    {
        let ok = r.is_ok();
        self.report(r, "Window moved.", "Move failed: ");
        if ok {
            Effect::ListWindows { announce: false }
        } else {
            Effect::Nothing
        }
    }

    /// Takes the outcome of resizing the selected window; after a resize the
    /// windows are listed again.
    pub fn resize_done(&mut self, r: Result<(), String>) -> (effect: Effect)
        ensures
            final(self)@ == outcome_status(old(self)@, unit_view(r), "Window resized."@, "Resize failed: "@),
            effect_view(effect) == (if r is Ok {
                Effect::<Seq<char>>::ListWindows { announce: false }
            } else {
                Effect::<Seq<char>>::Nothing
            }),
    {
        let ok = r.is_ok();
        self.report(r, "Window resized.", "Resize failed: ");
        if ok {
            Effect::ListWindows { announce: false }
        } else {
            Effect::Nothing
        }
    }

    /// Takes the outcome of turning always-on-top on or off; on failure the
    /// toggle is undone.
    pub fn always_on_top_done(&mut self, r: Result<(), String>)
        ensures
            final(self)@ == after_always_on_top(old(self)@, unit_view(r)),
    {
        match r {
            Ok(()) => {
                if self.always_on_top {
                    self.set_status(StatusTone::Success, owned("Always-on-top enabled."));
                } else {
                    self.set_status(StatusTone::Info, owned("Always-on-top disabled."));
                }
            },
            Err(e) => {
                let text = concat("Always-on-top failed: ", e.as_str());
                self.set_status(StatusTone::Error, text);
                self.always_on_top = !self.always_on_top;
            },
        }
    }

    /// Takes the outcome of capturing the selected window.
    pub fn window_captured(&mut self, r: Result<(), String>)
        ensures
            final(self)@ == outcome_status(
                old(self)@,
                unit_view(r),
                "Captured selected window region."@,
                "Window capture failed: "@,
            ),
    {
        self.report(r, "Captured selected window region.", "Window capture failed: ")
    }

    /// Takes the outcome of capturing the screen.
    pub fn screen_captured(&mut self, r: Result<(), String>)
        ensures
            final(self)@ == outcome_status(old(self)@, unit_view(r), "Captured screen."@, "Screen capture failed: "@),
    {
        self.report(r, "Captured screen.", "Screen capture failed: ")
    }

    /// Takes the outcome of focusing the selected window before typing; the
    /// text is typed once it has the focus.
    pub fn text_focus_done(&mut self, r: Result<(), String>) -> (effect: Effect)
        ensures
            match r {
                Ok(()) => final(self)@ == old(self)@ && effect_view(effect) == Effect::<Seq<char>>::SendText {
                    text: old(self)@.input_text,
                },
                Err(e) => final(self)@ == with_status(
                    old(self)@,
                    StatusTone::Error,
                    "Focus failed before text input: "@ + e@,
                ) && effect_view(effect) == Effect::<Seq<char>>::Nothing,
            },
    {
        match r {
            Ok(()) => Effect::SendText { text: self.input_text.clone() },
            Err(e) => {
                let text = concat("Focus failed before text input: ", e.as_str());
                self.set_status(StatusTone::Error, text);
                Effect::Nothing
            },
        }
    }

    /// Takes the outcome of typing the text.
    pub fn text_sent(&mut self, r: Result<(), String>)
        ensures
            final(self)@ == outcome_status(old(self)@, unit_view(r), "Sent keyboard text."@, "Sending text failed: "@),
    {
        self.report(r, "Sent keyboard text.", "Sending text failed: ")
    }

    /// Takes the outcome of a click at `(x, y)`.
    pub fn click_done(&mut self, x: i32, y: i32, r: Result<(), String>)
        ensures
            final(self)@ == outcome_status(
                old(self)@,
                unit_view(r),
                "Mouse click sent at ("@ + decimal(x as int) + ", "@ + decimal(y as int) + ") with "@
                    + button_choice_label(old(self)@.click_button) + " button."@,
                "Mouse click failed: "@,
            ),
    {
        let mut done = owned("Mouse click sent at (");
        push_i64(&mut done, x as i64);
        push_all(&mut done, ", ");
        push_i64(&mut done, y as i64);
        push_all(&mut done, ") with ");
        push_all(&mut done, self.click_button.label());
        push_all(&mut done, " button.");
        self.report(r, done.as_str(), "Mouse click failed: ")
    }

    /// Takes the outcome of moving the mouse to `(x, y)`.
    pub fn mouse_moved(&mut self, x: i32, y: i32, r: Result<(), String>)
        ensures
            final(self)@ == outcome_status(
                old(self)@,
                unit_view(r),
                "Moved mouse to ("@ + decimal(x as int) + ", "@ + decimal(y as int) + ")."@,
                "Mouse move failed: "@,
            ),
    {
        let mut done = owned("Moved mouse to (");
        push_i64(&mut done, x as i64);
        push_all(&mut done, ", ");
        push_i64(&mut done, y as i64);
        push_all(&mut done, ").");
        self.report(r, done.as_str(), "Mouse move failed: ")
    }

    /// How often the window ticks: every 100 ms while it tracks the mouse, every
    /// two seconds otherwise.
    pub fn tick_interval_ms(&self) -> (ms: u64)
        ensures
            ms == (if self@.track_mouse && self@.permissions.cursor_tracking { 100u64 } else { 2000u64 }),
    {
        if self.track_mouse && self.permissions.cursor_tracking {
            100
        } else {
            2000
        }
    }

    pub fn status(&self) -> (s: &str)
        ensures
            s@ == self@.status,
    {
        self.status.as_str()
    }

    pub fn status_tone(&self) -> (t: StatusTone)
        ensures
            t == self@.status_tone,
    {
        self.status_tone
    }

    pub fn selected_window_id(&self) -> (id: Option<u64>)
        ensures
            id == self@.selected_window_id,
    {
        self.selected_window_id
    }

    pub fn active_section(&self) -> (s: AppSection)
        ensures
            s == self@.active_section,
    {
        self.active_section
    }

    pub fn always_on_top(&self) -> (b: bool)
        ensures
            b == self@.always_on_top,
    {
        self.always_on_top
    }

    pub fn track_mouse(&self) -> (b: bool)
        ensures
            b == self@.track_mouse,
    {
        self.track_mouse
    }

    pub fn permissions(&self) -> (p: PermissionStatus)
        ensures
            p == self@.permissions,
    {
        self.permissions
    }

    pub fn cursor_position(&self) -> (p: Option<(i32, i32)>)
        ensures
            p == self@.cursor_position,
    {
        self.cursor_position
    }

    pub fn click_button(&self) -> (b: MouseButtonChoice)
        ensures
            b == self@.click_button,
    {
        self.click_button
    }

    pub fn search_query(&self) -> (t: &str)
        ensures
            t@ == self@.search_query,
    {
        self.search_query.as_str()
    }

    pub fn move_x(&self) -> (t: &str)
        ensures
            t@ == self@.move_x,
    {
        self.move_x.as_str()
    }

    pub fn move_y(&self) -> (t: &str)
        ensures
            t@ == self@.move_y,
    {
        self.move_y.as_str()
    }

    pub fn size_w(&self) -> (t: &str)
        ensures
            t@ == self@.size_w,
    {
        self.size_w.as_str()
    }

    pub fn size_h(&self) -> (t: &str)
        ensures
            t@ == self@.size_h,
    {
        self.size_h.as_str()
    }

    pub fn input_text(&self) -> (t: &str)
        ensures
            t@ == self@.input_text,
    {
        self.input_text.as_str()
    }

    pub fn click_x(&self) -> (t: &str)
        ensures
            t@ == self@.click_x,
    {
        self.click_x.as_str()
    }

    pub fn click_y(&self) -> (t: &str)
        ensures
            t@ == self@.click_y,
    {
        self.click_y.as_str()
    }
}

pub open spec fn tone_prefix(t: StatusTone) -> Seq<char> {
    match t {
        StatusTone::Info => "ℹ"@,
        StatusTone::Success => "✓"@,
        StatusTone::Warning => "⚠"@,
        StatusTone::Error => "✕"@,
    }
}

pub open spec fn mark(ok: bool) -> Seq<char> {
    if ok { "✓"@ } else { "✕"@ }
}

/// The badges of the four features, in the order screen, window, input,
/// cursor.
pub open spec fn badges(p: PermissionStatus) -> Seq<Seq<char>> {
    seq![
        mark(p.screen_capture) + " screen"@,
        mark(p.accessibility) + " window"@,
        mark(p.input_simulation) + " input"@,
        mark(p.cursor_tracking) + " cursor"@,
    ]
}

/// A window in the list: its title (or `#id` when it has none), size and
/// position.
pub open spec fn window_caption(w: WindowView) -> Seq<char> {
    (if w.title.len() == 0 { "#"@ + decimal(w.id as int) } else { w.title }) + " ["@ + decimal(w.width as int)
        + "x"@ + decimal(w.height as int) + " @ "@ + decimal(w.x as int) + ","@ + decimal(w.y as int) + "]"@
}

/// The list entry of a window, marked when it is the selected one.
pub open spec fn entry_label(w: WindowView, selected: bool) -> Seq<char> {
    (if selected { "● "@ } else { "  "@ }) + window_caption(w)
}

/// The windows whose lower-cased title holds the lower-cased query, in order.
pub open spec fn titles_matching(ws: Seq<WindowView>, query: Seq<char>) -> Seq<WindowView>
    decreases ws.len(),
{
    if ws.len() == 0 {
        Seq::empty()
    } else {
        let rest = titles_matching(ws.drop_last(), query);
        if occurs_in(unicode_lowercase(ws.last().title), unicode_lowercase(query)) {
            rest.push(ws.last())
        } else {
            rest
        }
    }
}

/// The windows the list shows: all of them when the search is blank, else
/// those whose title holds the search text, ignoring case.
pub open spec fn shown_windows(s: SpyView) -> Seq<WindowView> {
    if trim_ws(s.search_query).len() == 0 {
        s.windows
    } else {
        titles_matching(s.windows, s.search_query)
    }
}

pub open spec fn entries_of(ws: Seq<WindowView>, selected: Option<u64>) -> Seq<(u64, Seq<char>)> {
    ws.map_values(|w: WindowView| (w.id, entry_label(w, selected == Some(w.id))))
}

/// A button that needs a feature explains, while the feature is missing, why
/// it is disabled.
pub fn required_permission_tooltip(enabled: bool, reason: &'static str) -> (t: Option<&'static str>)
    ensures
        t == (if enabled { None } else { Some(reason) }),
{
    if enabled {
        None
    } else {
        Some(reason)
    }
}

/// A capability of the session that some actions need.
#[derive(Debug, Clone, Copy, PartialEq, Eq, Structural)]
pub enum Capability {
    ScreenCapture,
    WindowControl,
    InputSimulation,
    CursorTracking,
}

/// The capability that the action a message asks for needs, if any: window
/// moves, resizes, focus and the always-on-top toggle need window control,
/// captures need screen capture, typing and mouse actions need input
/// simulation, and tracking the cursor needs cursor tracking.
pub open spec fn capability_needed(m: Message<Seq<char>>) -> Option<Capability> {
    match m {
        Message::ApplyMove | Message::ApplySize | Message::FocusSelected | Message::ToggleAlwaysOnTop => Some(
            Capability::WindowControl,
        ),
        Message::CaptureSelectedWindow | Message::CaptureScreen => Some(Capability::ScreenCapture),
        Message::SendInputText | Message::MoveMouseToPoint | Message::SendMouseClick => Some(
            Capability::InputSimulation,
        ),
        Message::ToggleTrackMouse => Some(Capability::CursorTracking),
        _ => None,
    }
}

pub open spec fn capability_granted(p: PermissionStatus, c: Capability) -> bool {
    match c {
        Capability::ScreenCapture => p.screen_capture,
        Capability::WindowControl => p.accessibility,
        Capability::InputSimulation => p.input_simulation,
        Capability::CursorTracking => p.cursor_tracking,
    }
}

pub open spec fn capability_missing_text(c: Capability) -> Seq<char> {
    match c {
        Capability::ScreenCapture => "Screen capture is unavailable in this session."@,
        Capability::WindowControl => "Window operations are unavailable in this session."@,
        Capability::InputSimulation => "Input simulation is unavailable in this session."@,
        Capability::CursorTracking => "Cursor tracking is unavailable in this session."@,
    }
}

/// Why a button for `message` is disabled under `permissions`: `None` when the
/// action it asks for is available.
pub open spec fn disabled_reason(permissions: PermissionStatus, message: Message<Seq<char>>) -> Option<Seq<char>> {
    match capability_needed(message) {
        Some(c) => if capability_granted(permissions, c) {
            None
        } else {
            Some(capability_missing_text(c))
        },
        None => None,
    }
}

/// The capability that `message` needs, if any.
pub fn required_capability(message: &Message) -> (c: Option<Capability>)
    ensures
        c == capability_needed(message_view(*message)),
{
    match message {
        Message::ApplyMove | Message::ApplySize | Message::FocusSelected | Message::ToggleAlwaysOnTop => Some(
            Capability::WindowControl,
        ),
        Message::CaptureSelectedWindow | Message::CaptureScreen => Some(Capability::ScreenCapture),
        Message::SendInputText | Message::MoveMouseToPoint | Message::SendMouseClick => Some(
            Capability::InputSimulation,
        ),
        Message::ToggleTrackMouse => Some(Capability::CursorTracking),
        _ => None,
    }
}

/// The explanation shown while a capability is missing.
pub fn capability_missing_reason(c: Capability) -> (t: &'static str)
    ensures
        t@ == capability_missing_text(c),
{
    match c {
        Capability::ScreenCapture => "Screen capture is unavailable in this session.",
        Capability::WindowControl => "Window operations are unavailable in this session.",
        Capability::InputSimulation => "Input simulation is unavailable in this session.",
        Capability::CursorTracking => "Cursor tracking is unavailable in this session.",
    }
}

/// How a button for `message` is drawn under `permissions`: the message it
/// sends when pressed, or `None` when it is disabled, and the tooltip that
/// says why it is disabled.
pub fn guard_action(permissions: PermissionStatus, message: Message) -> (r: (Option<Message>, Option<&'static str>))
    ensures
        match disabled_reason(permissions, message_view(message)) {
            None => r.0 == Some(message) && r.1 == None::<&'static str>,
            Some(why) => r.0 == None::<Message> && r.1 is Some && r.1->0@ == why,
        },
{
    let needed = required_capability(&message);
    match needed {
        None => (Some(message), None),
        Some(c) => {
            let granted = match c {
                Capability::ScreenCapture => permissions.screen_capture,
                Capability::WindowControl => permissions.accessibility,
                Capability::InputSimulation => permissions.input_simulation,
                Capability::CursorTracking => permissions.cursor_tracking,
            };
            if granted {
                (Some(message), None)
            } else {
                (None, required_permission_tooltip(false, capability_missing_reason(c)))
            }
        },
    }
}

fn decimal_u64(n: u64) -> (s: String)
    ensures
        s@ == decimal(n as int),
{
    u64_to_string(n)
}

fn caption_of(w: &WindowInfo) -> (c: String)
    ensures
        c@ == window_caption(w@),
{
    let mut c = if w.title.unicode_len() == 0 {
        concat("#", decimal_u64(w.id).as_str())
    } else {
        w.title.clone()
    };
    push_all(&mut c, " [");
    push_all(&mut c, decimal_u32(w.width).as_str());
    push_all(&mut c, "x");
    push_all(&mut c, decimal_u32(w.height).as_str());
    push_all(&mut c, " @ ");
    push_all(&mut c, decimal_i32(w.x).as_str());
    push_all(&mut c, ",");
    push_all(&mut c, decimal_i32(w.y).as_str());
    push_all(&mut c, "]");
    c
}

impl AgentSpy {
    pub fn status_prefix(&self) -> (p: &'static str)
        ensures
            p@ == tone_prefix(self@.status_tone),
    {
        match self.status_tone {
            StatusTone::Info => "ℹ",
            StatusTone::Success => "✓",
            StatusTone::Warning => "⚠",
            StatusTone::Error => "✕",
        }
    }

    /// The cursor line of the status bar.
    pub fn cursor_label(&self) -> (l: String)
        ensures
            l@ == match self@.cursor_position {
                Some((x, y)) => "Cursor: "@ + decimal(x as int) + ", "@ + decimal(y as int),
                None => "Cursor: unknown"@,
            },
    {
        match self.cursor_position {
            Some((x, y)) => {
                let mut l = owned("Cursor: ");
                push_all(&mut l, decimal_i32(x).as_str());
                push_all(&mut l, ", ");
                push_all(&mut l, decimal_i32(y).as_str());
                l
            },
            None => owned("Cursor: unknown"),
        }
    }

    pub fn permission_badges(&self) -> (b: Vec<String>)
        ensures
            b@.map_values(|t: String| t@) == badges(self@.permissions),
    {
        let p = self.permissions;
        let mut b: Vec<String> = Vec::new();
        b.push(concat(if p.screen_capture { "✓" } else { "✕" }, " screen"));
        b.push(concat(if p.accessibility { "✓" } else { "✕" }, " window"));
        b.push(concat(if p.input_simulation { "✓" } else { "✕" }, " input"));
        b.push(concat(if p.cursor_tracking { "✓" } else { "✕" }, " cursor"));
        assert(b@.map_values(|t: String| t@) =~= badges(p));
        b
    }

    /// The tab of a section, marked when it is the one shown.
    pub fn section_tab_label(&self, section: AppSection) -> (l: String)
        ensures
            l@ == (if section == self@.active_section { "● "@ + section_label(section) } else { section_label(section) }),
    {
        if section == self.active_section {
            concat("● ", section.label())
        } else {
            owned(section.label())
        }
    }

    /// The button of a mouse button choice, marked when it is the chosen one.
    pub fn button_choice_tab_label(&self, choice: MouseButtonChoice) -> (l: String)
        ensures
            l@ == (if choice == self@.click_button {
                "● "@ + button_choice_label(choice)
            } else {
                button_choice_label(choice)
            }),
    {
        if choice == self.click_button {
            concat("● ", choice.label())
        } else {
            owned(choice.label())
        }
    }

    pub fn track_button_label(&self) -> (l: &'static str)
        ensures
            l@ == (if self@.track_mouse { "Stop Tracking"@ } else { "Track Mouse"@ }),
    {
        if self.track_mouse {
            "Stop Tracking"
        } else {
            "Track Mouse"
        }
    }

    /// The window list: each shown window's id and entry.
    pub fn window_entries(&self) -> (entries: Vec<(u64, String)>)
        ensures
            entries@.map_values(|e: (u64, String)| (e.0, e.1@)) == entries_of(shown_windows(self@), self@.selected_window_id),
    {
        let ghost ws = window_views(self.windows@);
        let ghost target = shown_windows(self@);
        let blank = str_trim(self.search_query.as_str()).unicode_len() == 0;
        let query = str_to_lowercase(self.search_query.as_str());
        let mut entries: Vec<(u64, String)> = Vec::new();
        let ghost mut shown: Seq<WindowView> = Seq::empty();
        let mut i: usize = 0;
        while i < self.windows.len()
            invariant
                i <= self.windows@.len(),
                ws == window_views(self.windows@),
                blank == (trim_ws(self@.search_query).len() == 0),
                query@ == unicode_lowercase(self@.search_query),
                ws == self@.windows,
                shown == (if blank { ws.take(i as int) } else { titles_matching(ws.take(i as int), self@.search_query) }),
                entries@.map_values(|e: (u64, String)| (e.0, e.1@)) == entries_of(shown, self@.selected_window_id),
            decreases self.windows@.len() - i,
        {
            let w = &self.windows[i];
            assert(ws.take(i + 1).drop_last() =~= ws.take(i as int));
            assert(ws.take(i + 1).last() == w@);
            let keep = if blank {
                true
            } else {
                let title = str_to_lowercase(w.title.as_str());
                str_contains(title.as_str(), query.as_str())
            };
            if keep {
                let selected = match self.selected_window_id {
                    Some(id) => id == w.id,
                    None => false,
                };
                let caption = caption_of(w);
                let label = if selected { concat("● ", caption.as_str()) } else { concat("  ", caption.as_str()) };
                let ghost before = entries@;
                let ghost old_shown = shown;
                assert(label@ == entry_label(w@, self@.selected_window_id == Some(w@.id)));
                entries.push((w.id, label));
                proof {
                    shown = shown.push(w@);
                    assert(entries_of(shown, self@.selected_window_id) =~= entries_of(old_shown, self@.selected_window_id).push(
                        (w@.id, entry_label(w@, self@.selected_window_id == Some(w@.id))),
                    ));
                    assert(entries@.map_values(|e: (u64, String)| (e.0, e.1@)) =~= before.map_values(
                        |e: (u64, String)| (e.0, e.1@),
                    ).push((w.id, label@)));
                }
            }
            i = i + 1;
        }
        assert(ws.take(self.windows@.len() as int) =~= ws);
        entries
    }

    /// The lines of the selected-window card, while the selected window is
    /// still listed.
    pub fn selected_window_card(&self) -> (lines: Option<Vec<String>>)
        ensures
            match selected_window(self@) {
                None => lines is None,
                Some(w) => lines matches Some(l) && l@.map_values(|t: String| t@) == seq![
                    "Title: "@ + w.title,
                    "ID: "@ + decimal(w.id as int) + " | PID: "@ + decimal(w.pid as int),
                    "Position: "@ + decimal(w.x as int) + ", "@ + decimal(w.y as int),
                    "Size: "@ + decimal(w.width as int) + " x "@ + decimal(w.height as int),
                    "State: minimized="@ + bool_text(w.is_minimized) + " maximized="@ + bool_text(w.is_maximized),
                ],
            },
    {
        let id = match self.selected_window_id {
            Some(id) => id,
            None => {
                return None;
            },
        };
        proof {
            lemma_window_with_id(window_views(self.windows@), id);
        }
        let w = match find_window(&self.windows, id) {
            Some(w) => w,
            None => {
                return None;
            },
        };
        let mut lines: Vec<String> = Vec::new();
        lines.push(concat("Title: ", w.title.as_str()));
        let mut l2 = concat("ID: ", decimal_u64(w.id).as_str());
        push_all(&mut l2, " | PID: ");
        push_all(&mut l2, decimal_u32(w.pid).as_str());
        lines.push(l2);
        let mut l3 = concat("Position: ", decimal_i32(w.x).as_str());
        push_all(&mut l3, ", ");
        push_all(&mut l3, decimal_i32(w.y).as_str());
        lines.push(l3);
        let mut l4 = concat("Size: ", decimal_u32(w.width).as_str());
        push_all(&mut l4, " x ");
        push_all(&mut l4, decimal_u32(w.height).as_str());
        lines.push(l4);
        let mut l5 = owned("State: minimized=");
        push_bool(&mut l5, w.is_minimized);
        push_all(&mut l5, " maximized=");
        push_bool(&mut l5, w.is_maximized);
        lines.push(l5);
        assert(lines@.map_values(|t: String| t@) =~= seq![
            "Title: "@ + w@.title,
            "ID: "@ + decimal(w@.id as int) + " | PID: "@ + decimal(w@.pid as int),
            "Position: "@ + decimal(w@.x as int) + ", "@ + decimal(w@.y as int),
            "Size: "@ + decimal(w@.width as int) + " x "@ + decimal(w@.height as int),
            "State: minimized="@ + bool_text(w@.is_minimized) + " maximized="@ + bool_text(w@.is_maximized),
        ]);
        Some(lines)
    }
}

} // verus!
