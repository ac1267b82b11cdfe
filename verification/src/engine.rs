//! The tool's core: which features a session offers, the checks that guard each
//! action, and how text reaches a window.
use vstd::prelude::*;

use crate::input::{ModifierKey, ModifierState};
use crate::platform::{filter_windows, find_window, opt_chars, searched_windows, window_views, window_with_id, PermissionStatus, WindowInfo, WindowView};
use crate::text::{decimal, owned, push_all, u64_to_string};

verus! {

broadcast use vstd::string::group_string_axioms;

/// The input backend in use: XTest on an X11 session, enigo elsewhere.
#[derive(Debug, Clone, Copy, PartialEq, Eq, Structural)]
pub enum InputBackendKind {
    Enigo,
    LinuxX11,
}

pub open spec fn backend_label(b: InputBackendKind) -> Seq<char> {
    match b {
        InputBackendKind::Enigo => "enigo"@,
        InputBackendKind::LinuxX11 => "linux-x11-xtest"@,
    }
}

impl InputBackendKind {
    pub fn backend_name(self) -> (n: &'static str)
        ensures
            n@ == backend_label(self),
    {
        match self {
            InputBackendKind::Enigo => "enigo",
            InputBackendKind::LinuxX11 => "linux-x11-xtest",
        }
    }

    /// The backend to use: XTest when it could be opened (on an X11 session),
    /// else enigo when it could be opened, else none.
    pub fn select(x11_opened: bool, enigo_opened: bool) -> (b: Option<InputBackendKind>)
        ensures
            b == (if x11_opened {
                Some(InputBackendKind::LinuxX11)
            } else if enigo_opened {
                Some(InputBackendKind::Enigo)
            } else {
                None
            }),
    {
        if x11_opened {
            Some(InputBackendKind::LinuxX11)
        } else if enigo_opened {
            Some(InputBackendKind::Enigo)
        } else {
            None
        }
    }
}

pub open spec fn cursor_refusal() -> Seq<char> {
    "Cursor tracking is unavailable on this session."@
}

pub open spec fn cursor_unread() -> Seq<char> {
    "Could not read cursor position."@
}

pub open spec fn window_refusal() -> Seq<char> {
    "Window manipulation requires accessibility permission."@
}

pub open spec fn capture_refusal() -> Seq<char> {
    "Screen capture permission is unavailable."@
}

pub open spec fn input_refusal() -> Seq<char> {
    "Input simulation permission is unavailable."@
}

pub open spec fn backend_missing() -> Seq<char> {
    "Input simulation backend is unavailable."@
}

pub open spec fn window_not_found(id: u64) -> Seq<char> {
    "Window not found for id: "@ + decimal(id as int)
}

/// What the core knows of the session: the features it offers and the input
/// backend that could be opened. An input backend is only held when input
/// simulation is available.
pub struct Core {
    permissions: PermissionStatus,
    input: Option<InputBackendKind>,
}

impl Core {
    pub closed spec fn spec_permissions(&self) -> PermissionStatus {
        self.permissions
    }

    pub closed spec fn spec_input(&self) -> Option<InputBackendKind> {
        self.input
    }

    /// An input backend is only opened when input simulation is available.
    pub fn wants_input_backend(permissions: &PermissionStatus) -> (b: bool)
        ensures
            b == permissions.input_simulation,
    {
        permissions.input_simulation
    }

    /// The core of a session with these features; `input` is the backend that
    /// was opened, which is dropped when input simulation is unavailable.
    pub fn new(permissions: PermissionStatus, input: Option<InputBackendKind>) -> (c: Core)
        ensures
            c.spec_permissions() == permissions,
            c.spec_input() == (if permissions.input_simulation { input } else { None }),
    {
        let input = if permissions.input_simulation { input } else { None };
        Core { permissions, input }
    }

    pub fn permissions(&self) -> (p: &PermissionStatus)
        ensures
            *p == self.spec_permissions(),
    {
        &self.permissions
    }

    pub fn input_backend_name(&self) -> (n: &'static str)
        ensures
            n@ == match self.spec_input() {
                Some(b) => backend_label(b),
                None => "unavailable"@,
            },
    {
        match self.input {
            Some(b) => b.backend_name(),
            None => "unavailable",
        }
    }

    /// The listed windows whose title holds the search text, ignoring ASCII
    /// case and surrounding white space; all of them without a search or with a
    /// blank one.
    pub fn list_windows(&self, windows: Vec<WindowInfo>, search: Option<&str>) -> (found: Vec<WindowInfo>)
        ensures
            window_views(found@) == searched_windows(window_views(windows@), opt_chars(search)),
    {
        filter_windows(windows, search)
    }

    /// The first listed window with the id.
    pub fn window_info(&self, windows: &Vec<WindowInfo>, id: u64) -> (r: Result<WindowInfo, String>)
        ensures
            match window_with_id(window_views(windows@), id) {
                None => r matches Err(m) && m@ == window_not_found(id),
                Some(k) => r matches Ok(w) && w@ == windows@[k]@,
            },
    {
        match find_window(windows, id) {
            Some(w) => Ok(w),
            None => {
                let mut m = owned("Window not found for id: ");
                let d = u64_to_string(id);
                push_all(&mut m, d.as_str());
                Err(m)
            },
        }
    }

    /// Reading the cursor needs cursor tracking.
    pub fn ensure_cursor_tracking(&self) -> (r: Result<(), String>)
        ensures
            match r {
                Ok(()) => self.spec_permissions().cursor_tracking,
                Err(m) => !self.spec_permissions().cursor_tracking && m@ == cursor_refusal(),
            },
    {
        if self.permissions.cursor_tracking {
            Ok(())
        } else {
            Err(owned("Cursor tracking is unavailable on this session."))
        }
    }

    /// The cursor position, given what the platform read (`None` when it could
    /// not); refused without cursor tracking.
    pub fn cursor_position(&self, read: Option<(i32, i32)>) -> (r: Result<(i32, i32), String>)
        ensures
            match r {
                Ok(p) => self.spec_permissions().cursor_tracking && read == Some(p),
                Err(m) => if !self.spec_permissions().cursor_tracking {
                    m@ == cursor_refusal()
                } else {
                    read is None && m@ == cursor_unread()
                },
            },
    {
        self.ensure_cursor_tracking()?;
        match read {
            Some(p) => Ok(p),
            None => Err(owned("Could not read cursor position.")),
        }
    }

    /// Focusing, moving, resizing and raising windows need window manipulation.
    pub fn ensure_window_manipulation(&self) -> (r: Result<(), String>)
        ensures
            match r {
                Ok(()) => self.spec_permissions().accessibility,
                Err(m) => !self.spec_permissions().accessibility && m@ == window_refusal(),
            },
    {
        if self.permissions.accessibility {
            Ok(())
        } else {
            Err(owned("Window manipulation requires accessibility permission."))
        }
    }

    /// Captures need screen capture.
    pub fn ensure_screen_capture(&self) -> (r: Result<(), String>)
        ensures
            match r {
                Ok(()) => self.spec_permissions().screen_capture,
                Err(m) => !self.spec_permissions().screen_capture && m@ == capture_refusal(),
            },
    {
        if self.permissions.screen_capture {
            Ok(())
        } else {
            Err(owned("Screen capture permission is unavailable."))
        }
    }

    /// Simulated input needs input simulation and an opened backend; the
    /// backend to drive.
    pub fn input(&self) -> (r: Result<InputBackendKind, String>)
        ensures
            match r {
                Ok(b) => self.spec_permissions().input_simulation && self.spec_input() == Some(b),
                Err(m) => if !self.spec_permissions().input_simulation {
                    m@ == input_refusal()
                } else {
                    self.spec_input() is None && m@ == backend_missing()
                },
            },
    {
        if !self.permissions.input_simulation {
            return Err(owned("Input simulation permission is unavailable."));
        }
        match self.input {
            Some(b) => Ok(b),
            None => Err(owned("Input simulation backend is unavailable.")),
        }
    }

    /// The modifiers held, as the backend tracks them; none without a backend.
    pub fn modifier_state(&self, held: ModifierState) -> (s: ModifierState)
        ensures
            s == (if self.spec_input() is Some {
                held
            } else {
                ModifierState { shift: false, control: false, alt: false, meta: false }
            }),
    {
        match self.input {
            Some(_) => held,
            None => ModifierState { shift: false, control: false, alt: false, meta: false },
        }
    }
}

/// How a piece of text is to reach its target.
#[derive(Debug, Clone, Copy, PartialEq, Eq, Structural)]
pub enum TextDelivery {
    /// Nothing to send.
    Nothing,
    /// Type the text through the input backend.
    Type,
    /// Send the text to the window's text control.
    ToWindow(u64),
    /// Focus the window, send the text to its text control, typing it through
    /// the input backend if that fails, then give the focus back.
    FocusSwapToWindow(u64),
    /// Put the text on the clipboard and press the paste shortcut.
    PasteShortcut,
    /// Put the text on the clipboard and ask the window's text control to paste.
    PasteToWindow(u64),
    /// Put the text on the clipboard, focus the window, press the paste
    /// shortcut, then give the focus back.
    FocusSwapPaste(u64),
}

pub open spec fn spec_text_delivery(
    text_empty: bool,
    target: Option<u64>,
    allow_focus_swap_fallback: bool,
    via_clipboard_paste: bool,
) -> TextDelivery {
    if text_empty {
        TextDelivery::Nothing
    } else {
        match (target, allow_focus_swap_fallback, via_clipboard_paste) {
            (None, _, false) => TextDelivery::Type,
            (None, _, true) => TextDelivery::PasteShortcut,
            (Some(w), false, false) => TextDelivery::ToWindow(w),
            (Some(w), true, false) => TextDelivery::FocusSwapToWindow(w),
            (Some(w), false, true) => TextDelivery::PasteToWindow(w),
            (Some(w), true, true) => TextDelivery::FocusSwapPaste(w),
        }
    }
}

/// How `text` is sent to `target` (or to whatever has the focus), with or
/// without the focus-swap fallback and the clipboard.
pub fn text_delivery(
    text: &str,
    target: Option<u64>,
    allow_focus_swap_fallback: bool,
    via_clipboard_paste: bool,
) -> (d: TextDelivery)
    ensures
        d == spec_text_delivery(text@.len() == 0, target, allow_focus_swap_fallback, via_clipboard_paste),
{
    if text.unicode_len() == 0 {
        return TextDelivery::Nothing;
    }
    match target {
        None => if via_clipboard_paste {
            TextDelivery::PasteShortcut
        } else {
            TextDelivery::Type
        },
        Some(w) => if allow_focus_swap_fallback {
            if via_clipboard_paste {
                TextDelivery::FocusSwapPaste(w)
            } else {
                TextDelivery::FocusSwapToWindow(w)
            }
        } else {
            if via_clipboard_paste {
                TextDelivery::PasteToWindow(w)
            } else {
                TextDelivery::ToWindow(w)
            }
        },
    }
}

/// The window a delivery sends the text to, if it names one.
pub open spec fn delivery_window(d: TextDelivery) -> Option<u64> {
    match d {
        TextDelivery::ToWindow(w) => Some(w),
        TextDelivery::FocusSwapToWindow(w) => Some(w),
        TextDelivery::PasteToWindow(w) => Some(w),
        TextDelivery::FocusSwapPaste(w) => Some(w),
        _ => None,
    }
}

/// The delivery goes through the clipboard.
pub open spec fn delivery_uses_clipboard(d: TextDelivery) -> bool {
    d is PasteShortcut || d is PasteToWindow || d is FocusSwapPaste
}

/// The delivery focuses the window first and gives the focus back after.
pub open spec fn delivery_swaps_focus(d: TextDelivery) -> bool {
    d is FocusSwapToWindow || d is FocusSwapPaste
}

/// Empty text is not sent. Other text goes to the target window when there is
/// one, else to whatever has the focus; through the clipboard exactly when a
/// clipboard paste is asked for; and with a focus swap exactly when there is a
/// target and the fallback is allowed. Without a target the fallback flag
/// changes nothing.
pub proof fn lemma_text_delivery_choice(
    text_empty: bool,
    target: Option<u64>,
    allow_focus_swap_fallback: bool,
    via_clipboard_paste: bool,
)
    ensures
        ({
            let d = spec_text_delivery(text_empty, target, allow_focus_swap_fallback, via_clipboard_paste);
            &&& (d == TextDelivery::Nothing) == text_empty
            &&& !text_empty ==> {
                &&& delivery_window(d) == target
                &&& delivery_uses_clipboard(d) == via_clipboard_paste
                &&& delivery_swaps_focus(d) == (target is Some && allow_focus_swap_fallback)
            }
        }),
        target is None ==> spec_text_delivery(text_empty, target, allow_focus_swap_fallback, via_clipboard_paste)
            == spec_text_delivery(text_empty, target, !allow_focus_swap_fallback, via_clipboard_paste),
{
}

/// A delivery that sends text is fixed by where it goes, whether it uses the
/// clipboard and whether it swaps the focus.
pub proof fn lemma_delivery_determined(a: TextDelivery, b: TextDelivery)
    requires
        a != TextDelivery::Nothing,
        b != TextDelivery::Nothing,
        delivery_window(a) == delivery_window(b),
        delivery_uses_clipboard(a) == delivery_uses_clipboard(b),
        delivery_swaps_focus(a) == delivery_swaps_focus(b),
    ensures
        a == b,
{
}

/// The window to give the focus back to after a focus swap to `window`: the
/// one focused before, unless it was that same window or none was.
pub fn focus_to_restore(previous: Option<u64>, window: u64) -> (r: Option<u64>)
    ensures
        r == (match previous {
            Some(p) => if p != window { Some(p) } else { None },
            None => None,
        }),
{
    match previous {
        Some(p) => if p != window {
            Some(p)
        } else {
            None
        },
        None => None,
    }
}

/// The modifier of the paste shortcut: Command on macOS, Control elsewhere.
pub fn paste_modifier(on_macos: bool) -> (m: ModifierKey)
    ensures
        m == (if on_macos { ModifierKey::Meta } else { ModifierKey::Control }),
{
    if on_macos {
        ModifierKey::Meta
    } else {
        ModifierKey::Control
    }
}

/// The part of a screen to capture for a window: its rectangle relative to the
/// screen's origin, at least one pixel wide and high.
#[derive(Debug, Clone, Copy, PartialEq, Eq, Structural)]
pub struct CaptureArea {
    pub x: i32,
    pub y: i32,
    pub width: u32,
    pub height: u32,
}

pub fn window_capture_area(window: &WindowInfo, screen_x: i32, screen_y: i32) -> (a: CaptureArea)
    requires
        i32::MIN <= window.x - screen_x <= i32::MAX,
        i32::MIN <= window.y - screen_y <= i32::MAX,
    ensures
        a.x == window.x - screen_x,
        a.y == window.y - screen_y,
        a.width == (if window.width == 0 { 1 } else { window.width }),
        a.height == (if window.height == 0 { 1 } else { window.height }),
{
    let width: u32 = if window.width == 0 { 1 } else { window.width };
    let height: u32 = if window.height == 0 { 1 } else { window.height };
    CaptureArea { x: window.x - screen_x, y: window.y - screen_y, width, height }
}

} // verus!
