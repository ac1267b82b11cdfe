//! The X11 input backend's decisions: which keycode types a keysym, and the
//! XTest events that press keys and buttons, scroll and move the pointer.
use vstd::prelude::*;

use std::collections::HashMap;

use crate::input::{keysym_for_key, spec_keysym, KeyArg, KeyDirection, MouseButtonArg, ScrollAxisArg};
use crate::platform::{sat_add_i32, spec_sat_add_i32};
use crate::text::owned;

verus! {

broadcast use vstd::std_specs::hash::group_hash_axioms;

/// `a + b`, held at `u8::MAX`.
pub open spec fn sat_add_u8(a: int, b: int) -> u8 {
    if a + b > 255 { 255 } else { (a + b) as u8 }
}

/// The number of keycodes from `min` to `max`, both included, computed with
/// saturating `u8` arithmetic as the server's range is read.
pub open spec fn spec_keycode_count(min: u8, max: u8) -> u8 {
    let span: int = if max >= min { max - min } else { 0 };
    sat_add_u8(span, 1)
}

pub fn keycode_count(min: u8, max: u8) -> (n: u8)
    ensures
        n == spec_keycode_count(min, max),
{
    max.saturating_sub(min).saturating_add(1)
}

/// The keysym-to-keycode table after the first `n` slots of a keyboard mapping
/// that lists `per` keysyms for each keycode from `min` on: a keysym maps to
/// the first keycode listing it; zero keysyms are empty slots.
pub open spec fn keycode_table_upto(min: u8, per: int, keysyms: Seq<u32>, n: int) -> Map<u32, u8>
    decreases n,
{
    if n <= 0 || per <= 0 {
        Map::empty()
    } else {
        let m = keycode_table_upto(min, per, keysyms, n - 1);
        let ks = keysyms[n - 1];
        if ks == 0 || m.contains_key(ks) {
            m
        } else {
            m.insert(ks, sat_add_u8(min as int, (n - 1) / per))
        }
    }
}

/// The keysym-to-keycode table of a keyboard mapping of `count` keycodes from
/// `min` on, `per` keysyms each.
pub fn keycode_table(min: u8, count: u8, per: u8, keysyms: &Vec<u32>) -> (table: HashMap<u32, u8>)
    requires
        keysyms@.len() >= count * per,
    ensures
        table@ == keycode_table_upto(min, per as int, keysyms@, count * per),
{
    let mut table: HashMap<u32, u8> = HashMap::new();
    let mut offset: u8 = 0;
    while offset < count
        invariant
            offset <= count,
            keysyms@.len() >= count * per,
            table@ == keycode_table_upto(min, per as int, keysyms@, offset * per),
        decreases count - offset,
    {
        let keycode = min.saturating_add(offset);
        assert(offset * per <= 255 * 255) by (nonlinear_arith)
            requires
                offset <= 255,
                per <= 255,
        ;
        let start: usize = offset as usize * per as usize;
        let mut t: u8 = 0;
        assert(count * per <= 255 * 255) by (nonlinear_arith)
            requires
                count <= 255,
                per <= 255,
        ;
        assert(offset * per + per == (offset + 1) * per) by (nonlinear_arith);
        assert((offset + 1) * per <= count * per) by (nonlinear_arith)
            requires
                offset + 1 <= count,
        ;
        while t < per
            invariant
                t <= per,
                count * per <= 255 * 255,
                start == offset * per,
                (offset + 1) * per <= count * per,
                offset * per + per == (offset + 1) * per,
                keysyms@.len() >= count * per,
                keycode == sat_add_u8(min as int, offset as int),
                table@ == keycode_table_upto(min, per as int, keysyms@, start + t),
            decreases per - t,
        {
            let j: usize = start + t as usize;
            assert((j as int) / (per as int) == offset as int) by (nonlinear_arith)
                requires
                    j == offset * per + t,
                    0 <= t < per,
            ;
            let keysym = keysyms[j];
            if keysym != 0 && !table.contains_key(&keysym) {
                table.insert(keysym, keycode);
            }
            t = t + 1;
        }
        offset = offset + 1;
    }
    table
}

/// How a key is to be typed: by its keycode through XTest, or through the
/// fallback backend when no keycode types it.
#[derive(Debug, Clone, Copy, PartialEq, Eq, Structural)]
pub enum KeyRoute {
    Keycode(u8),
    Fallback,
}

pub open spec fn no_keycode() -> Seq<char> {
    "No keycode mapping found for key"@
}

/// The route of `key`: its keysym's keycode when the table has one, else the
/// fallback backend when there is one, else a failure.
pub fn route_key(table: &HashMap<u32, u8>, key: KeyArg, has_fallback: bool) -> (r: Result<KeyRoute, String>)
    ensures
        match r {
            Ok(KeyRoute::Keycode(k)) => table@.contains_key(spec_keysym(key)) && table@[spec_keysym(key)] == k,
            Ok(KeyRoute::Fallback) => !table@.contains_key(spec_keysym(key)) && has_fallback,
            Err(m) => !table@.contains_key(spec_keysym(key)) && !has_fallback && m@ == no_keycode(),
        },
{
    let keysym = keysym_for_key(key);
    match table.get(&keysym) {
        Some(k) => Ok(KeyRoute::Keycode(*k)),
        None => if has_fallback {
            Ok(KeyRoute::Fallback)
        } else {
            Err(owned("No keycode mapping found for key"))
        },
    }
}

/// One XTest event: its type (2 key press, 3 key release, 4 button press,
/// 5 button release) and its detail (keycode or button number).
#[derive(Debug, Clone, Copy, PartialEq, Eq, Structural)]
pub struct FakeInput {
    pub kind: u8,
    pub detail: u8,
}

pub open spec fn press_release(press: u8, release: u8, detail: u8, direction: KeyDirection) -> Seq<FakeInput> {
    match direction {
        KeyDirection::Click => seq![FakeInput { kind: press, detail }, FakeInput { kind: release, detail }],
        KeyDirection::Press => seq![FakeInput { kind: press, detail }],
        KeyDirection::Release => seq![FakeInput { kind: release, detail }],
    }
}

fn press_release_events(press: u8, release: u8, detail: u8, direction: KeyDirection) -> (events: Vec<FakeInput>)
    ensures
        events@ == press_release(press, release, detail, direction),
{
    let mut events: Vec<FakeInput> = Vec::new();
    match direction {
        KeyDirection::Click => {
            events.push(FakeInput { kind: press, detail });
            events.push(FakeInput { kind: release, detail });
        },
        KeyDirection::Press => events.push(FakeInput { kind: press, detail }),
        KeyDirection::Release => events.push(FakeInput { kind: release, detail }),
    }
    assert(events@ =~= press_release(press, release, detail, direction));
    events
}

/// The events that actuate the key with this keycode.
pub fn key_events(keycode: u8, direction: KeyDirection) -> (events: Vec<FakeInput>)
    ensures
        events@ == press_release(2, 3, keycode, direction),
{
    press_release_events(2, 3, keycode, direction)
}

/// X11 numbers the left, middle and right buttons 1, 2 and 3.
pub open spec fn spec_button_number(button: MouseButtonArg) -> u8 {
    match button {
        MouseButtonArg::Left => 1,
        MouseButtonArg::Middle => 2,
        MouseButtonArg::Right => 3,
    }
}

pub fn button_number(button: MouseButtonArg) -> (n: u8)
    ensures
        n == spec_button_number(button),
{
    match button {
        MouseButtonArg::Left => 1,
        MouseButtonArg::Middle => 2,
        MouseButtonArg::Right => 3,
    }
}

/// The events that actuate a mouse button.
pub fn button_events(button: MouseButtonArg, direction: KeyDirection) -> (events: Vec<FakeInput>)
    ensures
        events@ == press_release(4, 5, spec_button_number(button), direction),
{
    press_release_events(4, 5, button_number(button), direction)
}

/// A scroll: the wheel button to click and how many times. Buttons 4 and 5
/// scroll up and down, 6 and 7 left and right; a non-negative amount scrolls
/// down or right.
#[derive(Debug, Clone, Copy, PartialEq, Eq, Structural)]
pub struct ScrollClicks {
    pub button: u8,
    pub count: u32,
}

pub open spec fn spec_scroll_clicks(length: i32, axis: ScrollAxisArg) -> ScrollClicks {
    let (forward, backward) = match axis {
        ScrollAxisArg::Vertical => (5u8, 4u8),
        ScrollAxisArg::Horizontal => (7u8, 6u8),
    };
    ScrollClicks {
        button: if length >= 0 { forward } else { backward },
        count: if length >= 0 { length as u32 } else { (-(length as int)) as u32 },
    }
}

pub fn scroll_clicks(length: i32, axis: ScrollAxisArg) -> (s: ScrollClicks)
    ensures
        s == spec_scroll_clicks(length, axis),
{
    let (forward, backward): (u8, u8) = match axis {
        ScrollAxisArg::Vertical => (5u8, 4u8),
        ScrollAxisArg::Horizontal => (7u8, 6u8),
    };
    let button = if length >= 0 { forward } else { backward };
    let count: u32 = if length >= 0 { length as u32 } else { (-(length as i64)) as u32 };
    ScrollClicks { button, count }
}

/// `v` held within the range of an `i16`.
pub open spec fn clamp_i16(v: int) -> i16 {
    if v < i16::MIN { i16::MIN } else if v > i16::MAX { i16::MAX } else { v as i16 }
}

/// Where a pointer motion goes: to `(x, y)`, or by `(x, y)` from the pointer's
/// position when that is given, with saturating `i32` arithmetic; held within
/// the `i16` range of X11 coordinates.
pub open spec fn spec_pointer_target(x: i32, y: i32, from: Option<(i16, i16)>) -> (i16, i16) {
    match from {
        None => (clamp_i16(x as int), clamp_i16(y as int)),
        Some((px, py)) => (
            clamp_i16(spec_sat_add_i32(px as int, x as int)),
            clamp_i16(spec_sat_add_i32(py as int, y as int)),
        ),
    }
}

fn clamp_to_i16(v: i32) -> (r: i16)
    ensures
        r == clamp_i16(v as int),
{
    if v < i16::MIN as i32 {
        i16::MIN
    } else if v > i16::MAX as i32 {
        i16::MAX
    } else {
        v as i16
    }
}

pub fn pointer_target(x: i32, y: i32, from: Option<(i16, i16)>) -> (p: (i16, i16))
    ensures
        p == spec_pointer_target(x, y, from),
{
    match from {
        None => (clamp_to_i16(x), clamp_to_i16(y)),
        Some((px, py)) => {
            let tx = sat_add_i32(px as i32, x);
            let ty = sat_add_i32(py as i32, y);
            (clamp_to_i16(tx), clamp_to_i16(ty))
        },
    }
}

} // verus!
