//! The keyboard input that the Windows platform sends: text as UTF-16 code
//! units, keyboard events for `SendInput`, and window messages for a text
//! control.
use vstd::prelude::*;

use crate::text::owned;

verus! {

broadcast use vstd::string::group_string_axioms;

/// The UTF-16 code units of one character: one unit below U+10000, else a
/// surrogate pair.
pub open spec fn utf16_units(c: char) -> Seq<u16> {
    let v = c as u32;
    if v < 0x10000 {
        seq![v as u16]
    } else {
        let u = v - 0x10000;
        seq![(0xD800 + u / 1024) as u16, (0xDC00 + u % 1024) as u16]
    }
}

/// The UTF-16 encoding of a string.
pub open spec fn utf16_of(s: Seq<char>) -> Seq<u16>
    decreases s.len(),
{
    if s.len() == 0 {
        Seq::empty()
    } else {
        utf16_of(s.drop_last()) + utf16_units(s.last())
    }
}

/// The UTF-16 code units of `text`.
pub fn encode_utf16(text: &str) -> (units: Vec<u16>)
    ensures
        units@ == utf16_of(text@),
{
    let n = text.unicode_len();
    let mut units: Vec<u16> = Vec::new();
    let mut i: usize = 0;
    while i < n
        invariant
            n == text@.len(),
            i <= n,
            units@ == utf16_of(text@.take(i as int)),
        decreases n - i,
    {
        let c = text.get_char(i);
        let v = c as u32;
        assert(text@.take(i + 1).drop_last() =~= text@.take(i as int));
        assert(text@.take(i + 1).last() == c);
        if v < 0x10000 {
            units.push(v as u16);
        } else {
            let u = v - 0x10000;
            assert(u / 1024 < 1024) by {
                assert(v <= 0x10FFFF);
            }
            units.push((0xD800 + u / 1024) as u16);
            units.push((0xDC00 + u % 1024) as u16);
        }
        assert(units@ =~= utf16_of(text@.take(i + 1)));
        i = i + 1;
    }
    assert(text@.take(n as int) =~= text@);
    units
}

/// The UTF-16 code units of `value` followed by a terminating zero, as Win32
/// functions take strings.
pub fn utf16_null(value: &str) -> (units: Vec<u16>)
    ensures
        units@ == utf16_of(value@).push(0),
{
    let mut units = encode_utf16(value);
    units.push(0);
    units
}

/// One keyboard event that types a UTF-16 code unit: pressed or released.
#[derive(Debug, Clone, Copy, PartialEq, Eq, Structural)]
pub struct UnicodeKeyEvent {
    pub unit: u16,
    pub key_up: bool,
}

/// The keyboard events that type `text`: each code unit pressed, then released.
pub fn unicode_key_events(text: &str) -> (events: Vec<UnicodeKeyEvent>)
    ensures
        events@.len() == 2 * utf16_of(text@).len(),
        forall|i: int|
            0 <= i < utf16_of(text@).len() ==> #[trigger] events@[2 * i] == (UnicodeKeyEvent {
                unit: utf16_of(text@)[i],
                key_up: false,
            }) && events@[2 * i + 1] == (UnicodeKeyEvent { unit: utf16_of(text@)[i], key_up: true }),
{
    let units = encode_utf16(text);
    let mut events: Vec<UnicodeKeyEvent> = Vec::new();
    let mut k: usize = 0;
    while k < units.len()
        invariant
            k <= units@.len(),
            units@ == utf16_of(text@),
            events@.len() == 2 * k,
            forall|i: int|
                0 <= i < k ==> #[trigger] events@[2 * i] == (UnicodeKeyEvent { unit: units@[i], key_up: false })
                    && events@[2 * i + 1] == (UnicodeKeyEvent { unit: units@[i], key_up: true }),
        decreases units@.len() - k,
    {
        let unit = units[k];
        events.push(UnicodeKeyEvent { unit, key_up: false });
        events.push(UnicodeKeyEvent { unit, key_up: true });
        k = k + 1;
        assert forall|i: int| 0 <= i < k implies #[trigger] events@[2 * i] == (UnicodeKeyEvent {
            unit: units@[i],
            key_up: false,
        }) && events@[2 * i + 1] == (UnicodeKeyEvent { unit: units@[i], key_up: true }) by {
            if i < k - 1 {
            } else {
                assert(2 * i == events@.len() - 2);
            }
        }
    }
    events
}

pub open spec fn send_input_shortfall() -> Seq<char> {
    "Windows SendInput failed to inject full text."@
}

/// `SendInput` reports how many events it injected; anything short of all of
/// them is a failure.
pub fn check_injected(sent: u32, expected: usize) -> (r: Result<(), String>)
    ensures
        match r {
            Ok(()) => sent == expected as u32,
            Err(m) => sent != expected as u32 && m@ == send_input_shortfall(),
        },
{
    if sent != expected as u32 {
        Err(owned("Windows SendInput failed to inject full text."))
    } else {
        Ok(())
    }
}

/// The `lParam` of a `WM_KEYDOWN` or `WM_KEYUP` message: a repeat count of 1 in
/// the low word; in the high word the scan code, and for a release the
/// previous-state and transition bits (bits 30 and 31 of the whole).
pub open spec fn key_message_lparam(scan: u32, key_up: bool) -> int {
    let high: int = if key_up { scan % 16384 + 49152 } else { (scan % 65536) as int };
    high * 65536 + 1
}

pub fn key_lparam(scan: u32, key_up: bool) -> (value: u32)
    ensures
        value == key_message_lparam(scan, key_up),
{
    let mut value: u32 = 1u32 | (scan << 16u32);
    assert((1u32 | (scan << 16u32)) == (scan % 65536) * 65536 + 1) by (bit_vector);
    if key_up {
        assert(((1u32 | (scan << 16u32)) | 0x4000_0000u32 | 0x8000_0000u32) == (scan % 16384 + 49152) * 65536
            + 1) by (bit_vector);
        value = value | 0x4000_0000u32;
        value = value | 0x8000_0000u32;
    }
    value
}

/// A window message that types into a text control.
#[derive(Debug, Clone, Copy, PartialEq, Eq, Structural)]
pub enum KeyMessage {
    /// `WM_KEYDOWN` for a virtual key.
    KeyDown(u16),
    /// `WM_CHAR` for a UTF-16 code unit.
    Char(u16),
    /// `WM_KEYUP` for a virtual key.
    KeyUp(u16),
}

/// The virtual key of the shift key.
pub const VK_SHIFT: u16 = 0x10;

/// Only ASCII code units are looked up in the keyboard layout.
pub open spec fn spec_needs_key_scan(unit: u16) -> bool {
    unit <= 0x7f
}

pub fn needs_key_scan(unit: u16) -> (b: bool)
    ensures
        b == spec_needs_key_scan(unit),
{
    unit <= 0x7f
}

/// The layout's answer as an unsigned 16-bit word: virtual key in the low byte,
/// shift state in the high byte.
pub open spec fn scan_word(scan: i16) -> int {
    if scan < 0 { scan + 65536 } else { scan as int }
}

/// The messages that type one UTF-16 code unit into a control. `key_scan` is the
/// keyboard layout's answer for the unit, asked for ASCII units only; `-1`
/// means the layout has no key for it. A unit with a key is typed as that key
/// pressed, the character, the key released, with shift held around them when
/// the layout asks for it; any other unit as the character alone.
pub open spec fn unit_messages(unit: u16, key_scan: Option<i16>) -> Seq<KeyMessage> {
    match key_scan {
        Some(s) if spec_needs_key_scan(unit) && s != -1 => {
            let vk = (scan_word(s) % 256) as u16;
            let shifted = (scan_word(s) / 256) % 2 == 1;
            let core = seq![KeyMessage::KeyDown(vk), KeyMessage::Char(unit), KeyMessage::KeyUp(vk)];
            if shifted {
                seq![KeyMessage::KeyDown(VK_SHIFT)] + core + seq![KeyMessage::KeyUp(VK_SHIFT)]
            } else {
                core
            }
        },
        _ => seq![KeyMessage::Char(unit)],
    }
}

pub fn utf16_unit_messages(unit: u16, key_scan: Option<i16>) -> (msgs: Vec<KeyMessage>)
    ensures
        msgs@ == unit_messages(unit, key_scan),
{
    let mut msgs: Vec<KeyMessage> = Vec::new();
    if unit <= 0x7f {
        if let Some(s) = key_scan {
            if s != -1 {
                let word: u16 = if s < 0 { (s as i32 + 65536) as u16 } else { s as u16 };
                let vk: u16 = word % 256;
                let shifted = (word / 256) % 2 == 1;
                if shifted {
                    msgs.push(KeyMessage::KeyDown(VK_SHIFT));
                }
                msgs.push(KeyMessage::KeyDown(vk));
                msgs.push(KeyMessage::Char(unit));
                msgs.push(KeyMessage::KeyUp(vk));
                if shifted {
                    msgs.push(KeyMessage::KeyUp(VK_SHIFT));
                }
                assert(msgs@ =~= unit_messages(unit, key_scan));
                return msgs;
            }
        }
    }
    msgs.push(KeyMessage::Char(unit));
    assert(msgs@ =~= unit_messages(unit, key_scan));
    msgs
}

} // verus!
