//! What each desktop platform decides on its own: which session it can serve,
//! which features it offers, how it turns a window listing into window
//! information, and the X11 request that keeps a window above the others.
use vstd::prelude::*;

use crate::platform::{PermissionStatus, WindowInfo, WindowView};
use crate::text::{ascii_lower_seq, equals_literal, owned, str_to_ascii_lowercase};

verus! {

broadcast use vstd::string::group_string_axioms;

/// The message with which the Linux platform refuses work in a Wayland session.
pub open spec fn wayland_refusal() -> Seq<char> {
    "Wayland sessions are not supported. Please use an X11 session."@
}

/// A session is a Wayland session when `WAYLAND_DISPLAY` is set, or when
/// `XDG_SESSION_TYPE` reads `wayland` in any ASCII case.
pub open spec fn wayland_session(wayland_display_set: bool, session_type: Option<Seq<char>>) -> bool {
    ||| wayland_display_set
    ||| (session_type matches Some(t) && ascii_lower_seq(t) == "wayland"@)
}

/// The Linux desktop, served over X11.
pub struct LinuxPlatform {
    is_wayland: bool,
}

impl LinuxPlatform {
    pub closed spec fn spec_is_wayland(&self) -> bool {
        self.is_wayland
    }

    /// The platform for a session in which `WAYLAND_DISPLAY` is set or not, and
    /// `XDG_SESSION_TYPE` holds `session_type` (`None` when it is unset or not
    /// Unicode).
    pub fn new(wayland_display_set: bool, session_type: Option<&str>) -> (p: Self)
        ensures
            p.spec_is_wayland() == wayland_session(
                wayland_display_set,
                match session_type {
                    Some(t) => Some(t@),
                    None => None,
                },
            ),
    {
        let is_wayland = if wayland_display_set {
            true
        } else {
            match session_type {
                None => false,
                Some(t) => {
                    let lower = str_to_ascii_lowercase(t);
                    equals_literal(&lower, "wayland")
                },
            }
        };
        LinuxPlatform { is_wayland }
    }

    pub fn is_wayland(&self) -> (b: bool)
        ensures
            b == self.spec_is_wayland(),
    {
        self.is_wayland
    }

    /// Fails in a Wayland session, where no window can be reached.
    pub fn ensure_supported_session(&self) -> (r: Result<(), String>)
        ensures
            match r {
                Ok(()) => !self.spec_is_wayland(),
                Err(m) => self.spec_is_wayland() && m@ == wayland_refusal(),
            },
    {
        if self.is_wayland {
            Err(owned("Wayland sessions are not supported. Please use an X11 session."))
        } else {
            Ok(())
        }
    }

    /// The features available: none in a Wayland session; otherwise window
    /// manipulation and cursor tracking always, screen capture when the screens
    /// could be enumerated, input simulation when an input backend could be
    /// opened.
    pub fn check_permissions(&self, screens_listed: bool, input_opened: bool) -> (p: PermissionStatus)
        ensures
            p == (if self.spec_is_wayland() {
                PermissionStatus {
                    screen_capture: false,
                    accessibility: false,
                    input_simulation: false,
                    cursor_tracking: false,
                }
            } else {
                PermissionStatus {
                    screen_capture: screens_listed,
                    accessibility: true,
                    input_simulation: input_opened,
                    cursor_tracking: true,
                }
            }),
    {
        if self.is_wayland {
            return PermissionStatus {
                screen_capture: false,
                accessibility: false,
                input_simulation: false,
                cursor_tracking: false,
            };
        }
        PermissionStatus {
            screen_capture: screens_listed,
            accessibility: true,
            input_simulation: input_opened,
            cursor_tracking: true,
        }
    }

    /// The cursor position is only read outside Wayland sessions; `read` is what
    /// the X server answered, if it was asked.
    pub fn cursor_position(&self, read: Option<(i32, i32)>) -> (p: Option<(i32, i32)>)
        ensures
            p == (if self.spec_is_wayland() { None } else { read }),
    {
        if self.is_wayland {
            None
        } else {
            read
        }
    }
}

/// The message of a window id that does not fit an X11 window id.
pub open spec fn invalid_window_id() -> Seq<char> {
    "Invalid window id"@
}

/// The X11 window with the given id; X11 ids are 32 bits wide.
pub fn x11_window_id(id: u64) -> (r: Result<u32, String>)
    ensures
        match r {
            Ok(w) => id <= u32::MAX && w == id,
            Err(m) => id > u32::MAX && m@ == invalid_window_id(),
        },
{
    if id <= u32::MAX as u64 {
        Ok(id as u32)
    } else {
        Err(owned("Invalid window id"))
    }
}

/// A dimension from a window listing, where a negative size stands for none.
pub open spec fn listed_dimension(v: i32) -> u32 {
    if v < 0 { 0 } else { v as u32 }
}

/// What a window listing says of a window, as the tool keeps it: negative sizes
/// become zero, no window is taken as minimized, and a full-screen window is
/// taken as maximized.
pub fn window_from_listing(
    id: u64,
    title: String,
    pid: u32,
    x: i32,
    y: i32,
    width: i32,
    height: i32,
    is_full_screen: bool,
) -> (w: WindowInfo)
    ensures
        w@ == (WindowView {
            id,
            title: title@,
            pid,
            x,
            y,
            width: listed_dimension(width),
            height: listed_dimension(height),
            is_minimized: false,
            is_maximized: is_full_screen,
        }),
{
    let w: u32 = if width < 0 { 0 } else { width as u32 };
    let h: u32 = if height < 0 { 0 } else { height as u32 };
    WindowInfo {
        id,
        title,
        pid,
        x,
        y,
        width: w,
        height: h,
        is_minimized: false,
        is_maximized: is_full_screen,
    }
}

/// The four bytes of `v`, least significant first.
pub open spec fn le_bytes(v: u32) -> Seq<u8> {
    seq![
        (v % 256) as u8,
        ((v / 256) % 256) as u8,
        ((v / 65536) % 256) as u8,
        (v / 16777216) as u8,
    ]
}

/// The four bytes of `v`, most significant first.
pub open spec fn be_bytes(v: u32) -> Seq<u8> {
    le_bytes(v).reverse()
}

pub open spec fn word_bytes(v: u32, little_endian: bool) -> Seq<u8> {
    if little_endian { le_bytes(v) } else { be_bytes(v) }
}

/// The X11 `ClientMessage` event that asks the window manager to add (`action`
/// 1) or remove (`action` 0) the `_NET_WM_STATE_ABOVE` state of a window: event
/// code 33, format 32, a zero sequence number, then five 32-bit words in the
/// machine's byte order: the window, the `_NET_WM_STATE` atom, the action, the
/// `_NET_WM_STATE_ABOVE` atom, no second property, and source 1 (a normal
/// application).
pub open spec fn above_state_event(
    window: u32,
    net_wm_state: u32,
    action: u32,
    above: u32,
    little_endian: bool,
) -> Seq<u8> {
    seq![33u8, 32u8, 0u8, 0u8] + word_bytes(window, little_endian) + word_bytes(net_wm_state, little_endian)
        + word_bytes(action, little_endian) + word_bytes(above, little_endian) + word_bytes(0, little_endian)
        + word_bytes(1, little_endian) + word_bytes(0, little_endian)
}

/// Calls `u32::to_ne_bytes`, which gives the bytes of `v` in the machine's byte
/// order: least significant first on a little-endian machine, most significant
/// first on a big-endian one.
#[verifier::external_body]
fn u32_ne_bytes(v: u32) -> (b: [u8; 4])
    ensures
        b@ == le_bytes(v) || b@ == be_bytes(v),
{
    v.to_ne_bytes()
}

fn put_word(ev: &mut Vec<u8>, v: u32, little_endian: bool)
    ensures
        final(ev)@ == old(ev)@ + word_bytes(v, little_endian),
{
    let b0 = (v % 256) as u8;
    let b1 = ((v / 256) % 256) as u8;
    let b2 = ((v / 65536) % 256) as u8;
    let b3 = (v / 16777216) as u8;
    if little_endian {
        ev.push(b0);
        ev.push(b1);
        ev.push(b2);
        ev.push(b3);
    } else {
        ev.push(b3);
        ev.push(b2);
        ev.push(b1);
        ev.push(b0);
    }
    assert(final(ev)@ =~= old(ev)@ + word_bytes(v, little_endian));
}

/// The 32 bytes of the request that turns always-on-top on (`enabled`) or off
/// for a window, in the byte order of the machine it runs on.
pub fn above_state_message(window: u32, net_wm_state: u32, above: u32, enabled: bool) -> (ev: Vec<u8>)
    ensures
        ev@ == above_state_event(window, net_wm_state, if enabled { 1 } else { 0 }, above, true)
            || ev@ == above_state_event(window, net_wm_state, if enabled { 1 } else { 0 }, above, false),
        ev@.len() == 32,
{
    let probe = u32_ne_bytes(1);
    let little_endian = probe[0] == 1;
    assert(le_bytes(1) =~= seq![1u8, 0u8, 0u8, 0u8]);
    assert(be_bytes(1) =~= seq![0u8, 0u8, 0u8, 1u8]);
    let action: u32 = if enabled { 1 } else { 0 };
    let mut ev: Vec<u8> = Vec::new();
    ev.push(33u8);
    ev.push(32u8);
    ev.push(0u8);
    ev.push(0u8);
    put_word(&mut ev, window, little_endian);
    put_word(&mut ev, net_wm_state, little_endian);
    put_word(&mut ev, action, little_endian);
    put_word(&mut ev, above, little_endian);
    put_word(&mut ev, 0, little_endian);
    put_word(&mut ev, 1, little_endian);
    put_word(&mut ev, 0, little_endian);
    assert(ev@ =~= above_state_event(window, net_wm_state, action, above, little_endian));
    ev
}

/// The macOS desktop, reached through the accessibility interface.
pub struct MacPlatform;

impl MacPlatform {
    pub fn new() -> (p: Self) {
        MacPlatform
    }

    /// The features available: window manipulation and input simulation when
    /// the process is trusted for accessibility, screen capture when the
    /// screens could be enumerated, cursor tracking always.
    pub fn check_permissions(&self, trusted: bool, screens_listed: bool) -> (p: PermissionStatus)
        ensures
            p == (PermissionStatus {
                screen_capture: screens_listed,
                accessibility: trusted,
                input_simulation: trusted,
                cursor_tracking: true,
            }),
    {
        PermissionStatus {
            screen_capture: screens_listed,
            accessibility: trusted,
            input_simulation: trusted,
            cursor_tracking: true,
        }
    }

    /// macOS offers no public way to raise another process's window level.
    pub fn set_always_on_top(&self, id: u64, enabled: bool) -> (r: Result<(), String>)
        ensures
            r matches Err(m) && m@ == mac_always_on_top_refusal(),
    {
        Err(owned("macOS does not expose a public API for setting window level from an external process"))
    }
}

pub open spec fn mac_always_on_top_refusal() -> Seq<char> {
    "macOS does not expose a public API for setting window level from an external process"@
}

/// The Windows desktop, reached through the Win32 interface.
pub struct WindowsPlatform;

impl WindowsPlatform {
    pub fn new() -> (p: Self) {
        WindowsPlatform
    }

    /// Every feature is available on Windows.
    pub fn check_permissions(&self) -> (p: PermissionStatus)
        ensures
            p == (PermissionStatus {
                screen_capture: true,
                accessibility: true,
                input_simulation: true,
                cursor_tracking: true,
            }),
    {
        PermissionStatus {
            screen_capture: true,
            accessibility: true,
            input_simulation: true,
            cursor_tracking: true,
        }
    }
}

} // verus!
