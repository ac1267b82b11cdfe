//! Keys, modifiers and mouse buttons: parsing their names, and the bookkeeping
//! of what is held down while input is simulated.
use vstd::prelude::*;

use crate::text::{
    ascii_lower_seq, ascii_upper, ascii_upper_seq, equals_literal, is_white_space, owned, push_all,
    str_to_ascii_lowercase, str_trim, trim_end_ws, trim_start_ws, trim_ws,
};

verus! {

#[derive(Debug, Clone, Copy, PartialEq, Eq, Structural)]
pub enum ModifierKey {
    Shift,
    Control,
    Alt,
    Meta,
}

#[derive(Debug, Clone, Copy, PartialEq, Eq, Structural)]
pub struct ModifierState {
    pub shift: bool,
    pub control: bool,
    pub alt: bool,
    pub meta: bool,
}

impl Default for ModifierState {
    fn default() -> (s: Self)
        ensures
            !s.shift && !s.control && !s.alt && !s.meta,
    {
        ModifierState { shift: false, control: false, alt: false, meta: false }
    }
}

impl ModifierState {
    pub open spec fn spec_is_pressed(self, modifier: ModifierKey) -> bool {
        match modifier {
            ModifierKey::Shift => self.shift,
            ModifierKey::Control => self.control,
            ModifierKey::Alt => self.alt,
            ModifierKey::Meta => self.meta,
        }
    }

    pub open spec fn spec_set(self, modifier: ModifierKey, pressed: bool) -> ModifierState {
        match modifier {
            ModifierKey::Shift => ModifierState { shift: pressed, ..self },
            ModifierKey::Control => ModifierState { control: pressed, ..self },
            ModifierKey::Alt => ModifierState { alt: pressed, ..self },
            ModifierKey::Meta => ModifierState { meta: pressed, ..self },
        }
    }

    pub fn is_pressed(self, modifier: ModifierKey) -> (b: bool)
        ensures
            b == self.spec_is_pressed(modifier),
    {
        match modifier {
            ModifierKey::Shift => self.shift,
            ModifierKey::Control => self.control,
            ModifierKey::Alt => self.alt,
            ModifierKey::Meta => self.meta,
        }
    }

    pub fn set(&mut self, modifier: ModifierKey, pressed: bool)
        ensures
            *final(self) == old(self).spec_set(modifier, pressed),
    {
        match modifier {
            ModifierKey::Shift => self.shift = pressed,
            ModifierKey::Control => self.control = pressed,
            ModifierKey::Alt => self.alt = pressed,
            ModifierKey::Meta => self.meta = pressed,
        }
    }
}

/// Reading a modifier gives back what was last set for it, and setting one
/// modifier leaves the others as they were.
pub proof fn lemma_modifier_read_after_set(s: ModifierState, m: ModifierKey, k: ModifierKey, pressed: bool)
    ensures
        s.spec_set(m, pressed).spec_is_pressed(m) == pressed,
        k != m ==> s.spec_set(m, pressed).spec_is_pressed(k) == s.spec_is_pressed(k),
        s.spec_set(m, s.spec_is_pressed(m)) == s,
{
}

#[derive(Debug, Clone, Copy, PartialEq, Eq, Structural)]
pub enum ScrollAxisArg {
    Vertical,
    Horizontal,
}

#[derive(Debug, Clone, Copy, PartialEq, Eq, Structural)]
pub enum NamedKey {
    Alt,
    Backspace,
    Control,
    Delete,
    DownArrow,
    End,
    Escape,
    F1,
    F2,
    F3,
    F4,
    F5,
    F6,
    F7,
    F8,
    F9,
    F10,
    F11,
    F12,
    Home,
    LeftArrow,
    Meta,
    PageDown,
    PageUp,
    Return,
    RightArrow,
    Shift,
    Space,
    Tab,
    UpArrow,
}

#[derive(Debug, Clone, Copy, PartialEq, Eq, Structural)]
pub enum KeyArg {
    Named(NamedKey),
    Unicode(char),
}

/// Why a key or a mouse button name was refused.
#[derive(Debug, Clone)]
pub enum InputError {
    /// The key name is empty once surrounding white space is dropped.
    EmptyKey,
    /// The key name, as given, is neither a known key nor a single character.
    UnsupportedKey(String),
    /// The mouse button name, as given, is not left, right or middle.
    InvalidMouseButton(String),
}

pub open spec fn input_error_message(e: InputError) -> Seq<char> {
    match e {
        InputError::EmptyKey => "Key cannot be empty."@,
        InputError::UnsupportedKey(v) => "Unsupported key: "@ + v@
            + ". Use a named key like 'enter' or a single character."@,
        InputError::InvalidMouseButton(v) => "Invalid mouse button: "@ + v@ + ". Use left, right, or middle."@,
    }
}

impl InputError {
    pub fn message(&self) -> (m: String)
        ensures
            m@ == input_error_message(*self),
    {
        match self {
            InputError::EmptyKey => owned("Key cannot be empty."),
            InputError::UnsupportedKey(v) => {
                let mut m = owned("Unsupported key: ");
                push_all(&mut m, v.as_str());
                push_all(&mut m, ". Use a named key like 'enter' or a single character.");
                m
            },
            InputError::InvalidMouseButton(v) => {
                let mut m = owned("Invalid mouse button: ");
                push_all(&mut m, v.as_str());
                push_all(&mut m, ". Use left, right, or middle.");
                m
            },
        }
    }
}

/// The key that a lower-cased name stands for.
pub open spec fn named_key_of(name: Seq<char>) -> Option<NamedKey> {
    if name == "alt"@ || name == "option"@ {
        Some(NamedKey::Alt)
    } else if name == "backspace"@ {
        Some(NamedKey::Backspace)
    } else if name == "ctrl"@ || name == "control"@ {
        Some(NamedKey::Control)
    } else if name == "del"@ || name == "delete"@ {
        Some(NamedKey::Delete)
    } else if name == "down"@ || name == "downarrow"@ {
        Some(NamedKey::DownArrow)
    } else if name == "end"@ {
        Some(NamedKey::End)
    } else if name == "enter"@ || name == "return"@ {
        Some(NamedKey::Return)
    } else if name == "esc"@ || name == "escape"@ {
        Some(NamedKey::Escape)
    } else if name == "home"@ {
        Some(NamedKey::Home)
    } else if name == "left"@ || name == "leftarrow"@ {
        Some(NamedKey::LeftArrow)
    } else if name == "meta"@ || name == "cmd"@ || name == "command"@ || name == "super"@ || name == "win"@ || name == "windows"@ {
        Some(NamedKey::Meta)
    } else if name == "pagedown"@ || name == "page-down"@ {
        Some(NamedKey::PageDown)
    } else if name == "pageup"@ || name == "page-up"@ {
        Some(NamedKey::PageUp)
    } else if name == "right"@ || name == "rightarrow"@ {
        Some(NamedKey::RightArrow)
    } else if name == "shift"@ {
        Some(NamedKey::Shift)
    } else if name == "space"@ {
        Some(NamedKey::Space)
    } else if name == "tab"@ {
        Some(NamedKey::Tab)
    } else if name == "up"@ || name == "uparrow"@ {
        Some(NamedKey::UpArrow)
    } else if name == "f1"@ {
        Some(NamedKey::F1)
    } else if name == "f2"@ {
        Some(NamedKey::F2)
    } else if name == "f3"@ {
        Some(NamedKey::F3)
    } else if name == "f4"@ {
        Some(NamedKey::F4)
    } else if name == "f5"@ {
        Some(NamedKey::F5)
    } else if name == "f6"@ {
        Some(NamedKey::F6)
    } else if name == "f7"@ {
        Some(NamedKey::F7)
    } else if name == "f8"@ {
        Some(NamedKey::F8)
    } else if name == "f9"@ {
        Some(NamedKey::F9)
    } else if name == "f10"@ {
        Some(NamedKey::F10)
    } else if name == "f11"@ {
        Some(NamedKey::F11)
    } else if name == "f12"@ {
        Some(NamedKey::F12)
    } else {
        None
    }
}

/// The key that a lower-cased name stands for.
pub fn named_key(name: &String) -> (k: Option<NamedKey>)
    ensures
        k == named_key_of(name@),
{
    if equals_literal(name, "alt") || equals_literal(name, "option") {
        Some(NamedKey::Alt)
    } else if equals_literal(name, "backspace") {
        Some(NamedKey::Backspace)
    } else if equals_literal(name, "ctrl") || equals_literal(name, "control") {
        Some(NamedKey::Control)
    } else if equals_literal(name, "del") || equals_literal(name, "delete") {
        Some(NamedKey::Delete)
    } else if equals_literal(name, "down") || equals_literal(name, "downarrow") {
        Some(NamedKey::DownArrow)
    } else if equals_literal(name, "end") {
        Some(NamedKey::End)
    } else if equals_literal(name, "enter") || equals_literal(name, "return") {
        Some(NamedKey::Return)
    } else if equals_literal(name, "esc") || equals_literal(name, "escape") {
        Some(NamedKey::Escape)
    } else if equals_literal(name, "home") {
        Some(NamedKey::Home)
    } else if equals_literal(name, "left") || equals_literal(name, "leftarrow") {
        Some(NamedKey::LeftArrow)
    } else if equals_literal(name, "meta") || equals_literal(name, "cmd") || equals_literal(name, "command") || equals_literal(name, "super") || equals_literal(name, "win") || equals_literal(name, "windows") {
        Some(NamedKey::Meta)
    } else if equals_literal(name, "pagedown") || equals_literal(name, "page-down") {
        Some(NamedKey::PageDown)
    } else if equals_literal(name, "pageup") || equals_literal(name, "page-up") {
        Some(NamedKey::PageUp)
    } else if equals_literal(name, "right") || equals_literal(name, "rightarrow") {
        Some(NamedKey::RightArrow)
    } else if equals_literal(name, "shift") {
        Some(NamedKey::Shift)
    } else if equals_literal(name, "space") {
        Some(NamedKey::Space)
    } else if equals_literal(name, "tab") {
        Some(NamedKey::Tab)
    } else if equals_literal(name, "up") || equals_literal(name, "uparrow") {
        Some(NamedKey::UpArrow)
    } else if equals_literal(name, "f1") {
        Some(NamedKey::F1)
    } else if equals_literal(name, "f2") {
        Some(NamedKey::F2)
    } else if equals_literal(name, "f3") {
        Some(NamedKey::F3)
    } else if equals_literal(name, "f4") {
        Some(NamedKey::F4)
    } else if equals_literal(name, "f5") {
        Some(NamedKey::F5)
    } else if equals_literal(name, "f6") {
        Some(NamedKey::F6)
    } else if equals_literal(name, "f7") {
        Some(NamedKey::F7)
    } else if equals_literal(name, "f8") {
        Some(NamedKey::F8)
    } else if equals_literal(name, "f9") {
        Some(NamedKey::F9)
    } else if equals_literal(name, "f10") {
        Some(NamedKey::F10)
    } else if equals_literal(name, "f11") {
        Some(NamedKey::F11)
    } else if equals_literal(name, "f12") {
        Some(NamedKey::F12)
    } else {
        None
    }
}

/// What a key name stands for: white space around it is dropped; a known key
/// name, in any ASCII case, names that key; any other single character names
/// itself. Nothing else names a key.
pub open spec fn parse_key(value: Seq<char>) -> Option<KeyArg> {
    let t = trim_ws(value);
    match named_key_of(ascii_lower_seq(t)) {
        Some(k) => if t.len() == 0 { None } else { Some(KeyArg::Named(k)) },
        None => if t.len() == 1 { Some(KeyArg::Unicode(t[0])) } else { None },
    }
}

/// Every name a key is known by, with the key it names.
pub open spec fn key_names() -> Seq<(Seq<char>, NamedKey)> {
    seq![
        ("alt"@, NamedKey::Alt),
        ("option"@, NamedKey::Alt),
        ("backspace"@, NamedKey::Backspace),
        ("ctrl"@, NamedKey::Control),
        ("control"@, NamedKey::Control),
        ("del"@, NamedKey::Delete),
        ("delete"@, NamedKey::Delete),
        ("down"@, NamedKey::DownArrow),
        ("downarrow"@, NamedKey::DownArrow),
        ("end"@, NamedKey::End),
        ("enter"@, NamedKey::Return),
        ("return"@, NamedKey::Return),
        ("esc"@, NamedKey::Escape),
        ("escape"@, NamedKey::Escape),
        ("home"@, NamedKey::Home),
        ("left"@, NamedKey::LeftArrow),
        ("leftarrow"@, NamedKey::LeftArrow),
        ("meta"@, NamedKey::Meta),
        ("cmd"@, NamedKey::Meta),
        ("command"@, NamedKey::Meta),
        ("super"@, NamedKey::Meta),
        ("win"@, NamedKey::Meta),
        ("windows"@, NamedKey::Meta),
        ("pagedown"@, NamedKey::PageDown),
        ("page-down"@, NamedKey::PageDown),
        ("pageup"@, NamedKey::PageUp),
        ("page-up"@, NamedKey::PageUp),
        ("right"@, NamedKey::RightArrow),
        ("rightarrow"@, NamedKey::RightArrow),
        ("shift"@, NamedKey::Shift),
        ("space"@, NamedKey::Space),
        ("tab"@, NamedKey::Tab),
        ("up"@, NamedKey::UpArrow),
        ("uparrow"@, NamedKey::UpArrow),
        ("f1"@, NamedKey::F1),
        ("f2"@, NamedKey::F2),
        ("f3"@, NamedKey::F3),
        ("f4"@, NamedKey::F4),
        ("f5"@, NamedKey::F5),
        ("f6"@, NamedKey::F6),
        ("f7"@, NamedKey::F7),
        ("f8"@, NamedKey::F8),
        ("f9"@, NamedKey::F9),
        ("f10"@, NamedKey::F10),
        ("f11"@, NamedKey::F11),
        ("f12"@, NamedKey::F12),
    ]
}

/// The characters key names are written with: lower-case letters, digits and `-`.
pub open spec fn is_name_char(c: char) -> bool {
    ('a' <= c && c <= 'z') || ('0' <= c && c <= '9') || c == '-'
}

proof fn lemma_key_name_words()
    ensures
        "alt"@ == seq!['a', 'l', 't'],
        "option"@ == seq!['o', 'p', 't', 'i', 'o', 'n'],
        "backspace"@ == seq!['b', 'a', 'c', 'k', 's', 'p', 'a', 'c', 'e'],
        "ctrl"@ == seq!['c', 't', 'r', 'l'],
        "control"@ == seq!['c', 'o', 'n', 't', 'r', 'o', 'l'],
        "del"@ == seq!['d', 'e', 'l'],
        "delete"@ == seq!['d', 'e', 'l', 'e', 't', 'e'],
        "down"@ == seq!['d', 'o', 'w', 'n'],
        "downarrow"@ == seq!['d', 'o', 'w', 'n', 'a', 'r', 'r', 'o', 'w'],
        "end"@ == seq!['e', 'n', 'd'],
        "enter"@ == seq!['e', 'n', 't', 'e', 'r'],
        "return"@ == seq!['r', 'e', 't', 'u', 'r', 'n'],
        "esc"@ == seq!['e', 's', 'c'],
        "escape"@ == seq!['e', 's', 'c', 'a', 'p', 'e'],
        "home"@ == seq!['h', 'o', 'm', 'e'],
        "left"@ == seq!['l', 'e', 'f', 't'],
        "leftarrow"@ == seq!['l', 'e', 'f', 't', 'a', 'r', 'r', 'o', 'w'],
        "meta"@ == seq!['m', 'e', 't', 'a'],
        "cmd"@ == seq!['c', 'm', 'd'],
        "command"@ == seq!['c', 'o', 'm', 'm', 'a', 'n', 'd'],
        "super"@ == seq!['s', 'u', 'p', 'e', 'r'],
        "win"@ == seq!['w', 'i', 'n'],
        "windows"@ == seq!['w', 'i', 'n', 'd', 'o', 'w', 's'],
        "pagedown"@ == seq!['p', 'a', 'g', 'e', 'd', 'o', 'w', 'n'],
        "page-down"@ == seq!['p', 'a', 'g', 'e', '-', 'd', 'o', 'w', 'n'],
        "pageup"@ == seq!['p', 'a', 'g', 'e', 'u', 'p'],
        "page-up"@ == seq!['p', 'a', 'g', 'e', '-', 'u', 'p'],
        "right"@ == seq!['r', 'i', 'g', 'h', 't'],
        "rightarrow"@ == seq!['r', 'i', 'g', 'h', 't', 'a', 'r', 'r', 'o', 'w'],
        "shift"@ == seq!['s', 'h', 'i', 'f', 't'],
        "space"@ == seq!['s', 'p', 'a', 'c', 'e'],
        "tab"@ == seq!['t', 'a', 'b'],
        "up"@ == seq!['u', 'p'],
        "uparrow"@ == seq!['u', 'p', 'a', 'r', 'r', 'o', 'w'],
        "f1"@ == seq!['f', '1'],
        "f2"@ == seq!['f', '2'],
        "f3"@ == seq!['f', '3'],
        "f4"@ == seq!['f', '4'],
        "f5"@ == seq!['f', '5'],
        "f6"@ == seq!['f', '6'],
        "f7"@ == seq!['f', '7'],
        "f8"@ == seq!['f', '8'],
        "f9"@ == seq!['f', '9'],
        "f10"@ == seq!['f', '1', '0'],
        "f11"@ == seq!['f', '1', '1'],
        "f12"@ == seq!['f', '1', '2'],
{
    reveal_strlit("alt");
    assert("alt"@ =~= seq!['a', 'l', 't']);
    reveal_strlit("option");
    assert("option"@ =~= seq!['o', 'p', 't', 'i', 'o', 'n']);
    reveal_strlit("backspace");
    assert("backspace"@ =~= seq!['b', 'a', 'c', 'k', 's', 'p', 'a', 'c', 'e']);
    reveal_strlit("ctrl");
    assert("ctrl"@ =~= seq!['c', 't', 'r', 'l']);
    reveal_strlit("control");
    assert("control"@ =~= seq!['c', 'o', 'n', 't', 'r', 'o', 'l']);
    reveal_strlit("del");
    assert("del"@ =~= seq!['d', 'e', 'l']);
    reveal_strlit("delete");
    assert("delete"@ =~= seq!['d', 'e', 'l', 'e', 't', 'e']);
    reveal_strlit("down");
    assert("down"@ =~= seq!['d', 'o', 'w', 'n']);
    reveal_strlit("downarrow");
    assert("downarrow"@ =~= seq!['d', 'o', 'w', 'n', 'a', 'r', 'r', 'o', 'w']);
    reveal_strlit("end");
    assert("end"@ =~= seq!['e', 'n', 'd']);
    reveal_strlit("enter");
    assert("enter"@ =~= seq!['e', 'n', 't', 'e', 'r']);
    reveal_strlit("return");
    assert("return"@ =~= seq!['r', 'e', 't', 'u', 'r', 'n']);
    reveal_strlit("esc");
    assert("esc"@ =~= seq!['e', 's', 'c']);
    reveal_strlit("escape");
    assert("escape"@ =~= seq!['e', 's', 'c', 'a', 'p', 'e']);
    reveal_strlit("home");
    assert("home"@ =~= seq!['h', 'o', 'm', 'e']);
    reveal_strlit("left");
    assert("left"@ =~= seq!['l', 'e', 'f', 't']);
    reveal_strlit("leftarrow");
    assert("leftarrow"@ =~= seq!['l', 'e', 'f', 't', 'a', 'r', 'r', 'o', 'w']);
    reveal_strlit("meta");
    assert("meta"@ =~= seq!['m', 'e', 't', 'a']);
    reveal_strlit("cmd");
    assert("cmd"@ =~= seq!['c', 'm', 'd']);
    reveal_strlit("command");
    assert("command"@ =~= seq!['c', 'o', 'm', 'm', 'a', 'n', 'd']);
    reveal_strlit("super");
    assert("super"@ =~= seq!['s', 'u', 'p', 'e', 'r']);
    reveal_strlit("win");
    assert("win"@ =~= seq!['w', 'i', 'n']);
    reveal_strlit("windows");
    assert("windows"@ =~= seq!['w', 'i', 'n', 'd', 'o', 'w', 's']);
    reveal_strlit("pagedown");
    assert("pagedown"@ =~= seq!['p', 'a', 'g', 'e', 'd', 'o', 'w', 'n']);
    reveal_strlit("page-down");
    assert("page-down"@ =~= seq!['p', 'a', 'g', 'e', '-', 'd', 'o', 'w', 'n']);
    reveal_strlit("pageup");
    assert("pageup"@ =~= seq!['p', 'a', 'g', 'e', 'u', 'p']);
    reveal_strlit("page-up");
    assert("page-up"@ =~= seq!['p', 'a', 'g', 'e', '-', 'u', 'p']);
    reveal_strlit("right");
    assert("right"@ =~= seq!['r', 'i', 'g', 'h', 't']);
    reveal_strlit("rightarrow");
    assert("rightarrow"@ =~= seq!['r', 'i', 'g', 'h', 't', 'a', 'r', 'r', 'o', 'w']);
    reveal_strlit("shift");
    assert("shift"@ =~= seq!['s', 'h', 'i', 'f', 't']);
    reveal_strlit("space");
    assert("space"@ =~= seq!['s', 'p', 'a', 'c', 'e']);
    reveal_strlit("tab");
    assert("tab"@ =~= seq!['t', 'a', 'b']);
    reveal_strlit("up");
    assert("up"@ =~= seq!['u', 'p']);
    reveal_strlit("uparrow");
    assert("uparrow"@ =~= seq!['u', 'p', 'a', 'r', 'r', 'o', 'w']);
    reveal_strlit("f1");
    assert("f1"@ =~= seq!['f', '1']);
    reveal_strlit("f2");
    assert("f2"@ =~= seq!['f', '2']);
    reveal_strlit("f3");
    assert("f3"@ =~= seq!['f', '3']);
    reveal_strlit("f4");
    assert("f4"@ =~= seq!['f', '4']);
    reveal_strlit("f5");
    assert("f5"@ =~= seq!['f', '5']);
    reveal_strlit("f6");
    assert("f6"@ =~= seq!['f', '6']);
    reveal_strlit("f7");
    assert("f7"@ =~= seq!['f', '7']);
    reveal_strlit("f8");
    assert("f8"@ =~= seq!['f', '8']);
    reveal_strlit("f9");
    assert("f9"@ =~= seq!['f', '9']);
    reveal_strlit("f10");
    assert("f10"@ =~= seq!['f', '1', '0']);
    reveal_strlit("f11");
    assert("f11"@ =~= seq!['f', '1', '1']);
    reveal_strlit("f12");
    assert("f12"@ =~= seq!['f', '1', '2']);
}

/// A name written with name characters is left as it is by trimming and by
/// lower-casing, and its upper-case form lower-cases back to it.
proof fn lemma_plain_name(s: Seq<char>)
    requires
        s.len() > 0,
        forall|j: int| 0 <= j < s.len() ==> is_name_char(#[trigger] s[j]),
    ensures
        trim_ws(s) == s,
        ascii_lower_seq(s) == s,
        trim_ws(ascii_upper_seq(s)) == ascii_upper_seq(s),
        ascii_lower_seq(ascii_upper_seq(s)) == s,
{
    let u = ascii_upper_seq(s);
    assert(is_name_char(s[0]));
    assert(is_name_char(s.last()));
    assert(!is_white_space(s[0]));
    assert(!is_white_space(s.last()));
    assert(u[0] == ascii_upper(s[0]));
    assert(u.last() == ascii_upper(s.last()));
    assert(!is_white_space(u[0]));
    assert(!is_white_space(u.last()));
    assert(ascii_lower_seq(s) =~= s);
    assert(ascii_lower_seq(u) =~= s) by {
        assert forall|j: int| 0 <= j < s.len() implies ascii_lower_seq(u)[j] == s[j] by {
            assert(is_name_char(s[j]));
            assert(u[j] == ascii_upper(s[j]));
        }
    }
}

/// Each name of the table names its key, written in lower or upper case.
pub proof fn lemma_key_names_parse()
    ensures
        forall|i: int|
            0 <= i < key_names().len() ==> {
                &&& parse_key(#[trigger] key_names()[i].0) == Some(KeyArg::Named(key_names()[i].1))
                &&& parse_key(ascii_upper_seq(key_names()[i].0)) == Some(KeyArg::Named(key_names()[i].1))
            },
{
    lemma_key_name_words();
    let t = key_names();
    assert forall|i: int| 0 <= i < t.len() implies {
        &&& parse_key(#[trigger] t[i].0) == Some(KeyArg::Named(t[i].1))
        &&& parse_key(ascii_upper_seq(t[i].0)) == Some(KeyArg::Named(t[i].1))
    } by {
        let a = t[i].0;
        assert(named_key_of(a) == Some(t[i].1));
        lemma_plain_name(a);
    }
}

proof fn lemma_named_key_listed(n: Seq<char>)
    requires
        named_key_of(n) is Some,
    ensures
        exists|i: int| 0 <= i < key_names().len() && #[trigger] key_names()[i] == (n, named_key_of(n)->0),
{
    let t = key_names();
    if n == "alt"@ {
        assert(t[0] == (n, NamedKey::Alt));
    } else if n == "option"@ {
        assert(t[1] == (n, NamedKey::Alt));
    } else if n == "backspace"@ {
        assert(t[2] == (n, NamedKey::Backspace));
    } else if n == "ctrl"@ {
        assert(t[3] == (n, NamedKey::Control));
    } else if n == "control"@ {
        assert(t[4] == (n, NamedKey::Control));
    } else if n == "del"@ {
        assert(t[5] == (n, NamedKey::Delete));
    } else if n == "delete"@ {
        assert(t[6] == (n, NamedKey::Delete));
    } else if n == "down"@ {
        assert(t[7] == (n, NamedKey::DownArrow));
    } else if n == "downarrow"@ {
        assert(t[8] == (n, NamedKey::DownArrow));
    } else if n == "end"@ {
        assert(t[9] == (n, NamedKey::End));
    } else if n == "enter"@ {
        assert(t[10] == (n, NamedKey::Return));
    } else if n == "return"@ {
        assert(t[11] == (n, NamedKey::Return));
    } else if n == "esc"@ {
        assert(t[12] == (n, NamedKey::Escape));
    } else if n == "escape"@ {
        assert(t[13] == (n, NamedKey::Escape));
    } else if n == "home"@ {
        assert(t[14] == (n, NamedKey::Home));
    } else if n == "left"@ {
        assert(t[15] == (n, NamedKey::LeftArrow));
    } else if n == "leftarrow"@ {
        assert(t[16] == (n, NamedKey::LeftArrow));
    } else if n == "meta"@ {
        assert(t[17] == (n, NamedKey::Meta));
    } else if n == "cmd"@ {
        assert(t[18] == (n, NamedKey::Meta));
    } else if n == "command"@ {
        assert(t[19] == (n, NamedKey::Meta));
    } else if n == "super"@ {
        assert(t[20] == (n, NamedKey::Meta));
    } else if n == "win"@ {
        assert(t[21] == (n, NamedKey::Meta));
    } else if n == "windows"@ {
        assert(t[22] == (n, NamedKey::Meta));
    } else if n == "pagedown"@ {
        assert(t[23] == (n, NamedKey::PageDown));
    } else if n == "page-down"@ {
        assert(t[24] == (n, NamedKey::PageDown));
    } else if n == "pageup"@ {
        assert(t[25] == (n, NamedKey::PageUp));
    } else if n == "page-up"@ {
        assert(t[26] == (n, NamedKey::PageUp));
    } else if n == "right"@ {
        assert(t[27] == (n, NamedKey::RightArrow));
    } else if n == "rightarrow"@ {
        assert(t[28] == (n, NamedKey::RightArrow));
    } else if n == "shift"@ {
        assert(t[29] == (n, NamedKey::Shift));
    } else if n == "space"@ {
        assert(t[30] == (n, NamedKey::Space));
    } else if n == "tab"@ {
        assert(t[31] == (n, NamedKey::Tab));
    } else if n == "up"@ {
        assert(t[32] == (n, NamedKey::UpArrow));
    } else if n == "uparrow"@ {
        assert(t[33] == (n, NamedKey::UpArrow));
    } else if n == "f1"@ {
        assert(t[34] == (n, NamedKey::F1));
    } else if n == "f2"@ {
        assert(t[35] == (n, NamedKey::F2));
    } else if n == "f3"@ {
        assert(t[36] == (n, NamedKey::F3));
    } else if n == "f4"@ {
        assert(t[37] == (n, NamedKey::F4));
    } else if n == "f5"@ {
        assert(t[38] == (n, NamedKey::F5));
    } else if n == "f6"@ {
        assert(t[39] == (n, NamedKey::F6));
    } else if n == "f7"@ {
        assert(t[40] == (n, NamedKey::F7));
    } else if n == "f8"@ {
        assert(t[41] == (n, NamedKey::F8));
    } else if n == "f9"@ {
        assert(t[42] == (n, NamedKey::F9));
    } else if n == "f10"@ {
        assert(t[43] == (n, NamedKey::F10));
    } else if n == "f11"@ {
        assert(t[44] == (n, NamedKey::F11));
    } else if n == "f12"@ {
        assert(t[45] == (n, NamedKey::F12));
    }
}

/// A name names a key only when, without the white space around it and
/// lower-cased, it is one of the table's names for that key.
pub proof fn lemma_key_names_only(value: Seq<char>, k: NamedKey)
    requires
        parse_key(value) == Some(KeyArg::Named(k)),
    ensures
        exists|i: int|
            0 <= i < key_names().len() && #[trigger] key_names()[i] == (ascii_lower_seq(trim_ws(value)), k),
{
    lemma_named_key_listed(ascii_lower_seq(trim_ws(value)));
}

/// A single character that is not white space names itself: no key name is
/// one character long.
pub proof fn lemma_single_character_key(c: char)
    requires
        !is_white_space(c),
    ensures
        parse_key(seq![c]) == Some(KeyArg::Unicode(c)),
{
    lemma_key_name_words();
    let s = seq![c];
    assert(trim_start_ws(s) == s);
    assert(trim_end_ws(s) == s);
    assert(ascii_lower_seq(s).len() == 1);
}

/// A name stands for a character only when, without the white space around
/// it, it is that one character.
pub proof fn lemma_character_key_only(value: Seq<char>, c: char)
    requires
        parse_key(value) == Some(KeyArg::Unicode(c)),
    ensures
        trim_ws(value) == seq![c],
{
    assert(trim_ws(value) =~= seq![c]);
}

proof fn lemma_trim_start_concat(x: Seq<char>, y: Seq<char>)
    ensures
        trim_start_ws(x + y) == if trim_start_ws(x).len() > 0 {
            trim_start_ws(x) + y
        } else {
            trim_start_ws(y)
        },
    decreases x.len(),
{
    if x.len() == 0 {
        assert(x + y =~= y);
    } else if is_white_space(x[0]) {
        assert((x + y)[0] == x[0]);
        assert((x + y).drop_first() =~= x.drop_first() + y);
        lemma_trim_start_concat(x.drop_first(), y);
    } else {
        assert((x + y)[0] == x[0]);
    }
}

/// White space around a name does not change what it names.
pub proof fn lemma_key_padding(value: Seq<char>)
    ensures
        parse_key(seq![' '] + value + seq![' ']) == parse_key(value),
{
    let p = seq![' '] + value + seq![' '];
    let inner = value + seq![' '];
    assert(p[0] == ' ');
    assert(p.drop_first() =~= inner);
    assert(trim_start_ws(p) == trim_start_ws(inner));
    lemma_trim_start_concat(value, seq![' ']);
    let sp = seq![' '];
    assert(trim_start_ws(sp.drop_first()) == sp.drop_first());
    assert(trim_start_ws(sp) == trim_start_ws(sp.drop_first()));
    let st = trim_start_ws(value);
    if st.len() > 0 {
        let z = st + sp;
        assert(z.last() == ' ');
        assert(z.drop_last() =~= st);
        assert(trim_end_ws(z) == trim_end_ws(st));
    } else {
        assert(sp.drop_first() =~= Seq::<char>::empty());
    }
    assert(trim_ws(p) == trim_ws(value));
}

impl KeyArg {
    pub fn parse(value: &str) -> (r: Result<KeyArg, InputError>)
        ensures
            match r {
                Ok(k) => parse_key(value@) == Some(k),
                Err(InputError::EmptyKey) => trim_ws(value@).len() == 0,
                Err(InputError::UnsupportedKey(v)) => parse_key(value@) is None && trim_ws(value@).len() > 0 && v@
                    == value@,
                Err(InputError::InvalidMouseButton(_)) => false,
            },
    {
        let trimmed = str_trim(value);
        let n = trimmed.unicode_len();
        if n == 0 {
            return Err(InputError::EmptyKey);
        }
        let normalized = str_to_ascii_lowercase(trimmed);
        if let Some(named) = named_key(&normalized) {
            return Ok(KeyArg::Named(named));
        }
        if n != 1 {
            return Err(InputError::UnsupportedKey(value.to_string()));
        }
        Ok(KeyArg::Unicode(trimmed.get_char(0)))
    }

    pub open spec fn spec_modifier(self) -> Option<ModifierKey> {
        match self {
            KeyArg::Named(NamedKey::Alt) => Some(ModifierKey::Alt),
            KeyArg::Named(NamedKey::Control) => Some(ModifierKey::Control),
            KeyArg::Named(NamedKey::Meta) => Some(ModifierKey::Meta),
            KeyArg::Named(NamedKey::Shift) => Some(ModifierKey::Shift),
            _ => None,
        }
    }

    /// The modifier that this key is, if any.
    pub fn modifier(self) -> (m: Option<ModifierKey>)
        ensures
            m == self.spec_modifier(),
    {
        match self {
            KeyArg::Named(NamedKey::Alt) => Some(ModifierKey::Alt),
            KeyArg::Named(NamedKey::Control) => Some(ModifierKey::Control),
            KeyArg::Named(NamedKey::Meta) => Some(ModifierKey::Meta),
            KeyArg::Named(NamedKey::Shift) => Some(ModifierKey::Shift),
            KeyArg::Named(_) | KeyArg::Unicode(_) => None,
        }
    }
}


/// The X11 keysym of a key: the table of named keys, Latin-1 characters as
/// their code, other characters as `0x0100_0000 | code`.
pub open spec fn spec_keysym(key: KeyArg) -> u32 {
    match key {
        KeyArg::Named(NamedKey::Backspace) => 0xff08,
        KeyArg::Named(NamedKey::Tab) => 0xff09,
        KeyArg::Named(NamedKey::Return) => 0xff0d,
        KeyArg::Named(NamedKey::Escape) => 0xff1b,
        KeyArg::Named(NamedKey::Space) => 0x0020,
        KeyArg::Named(NamedKey::Home) => 0xff50,
        KeyArg::Named(NamedKey::LeftArrow) => 0xff51,
        KeyArg::Named(NamedKey::UpArrow) => 0xff52,
        KeyArg::Named(NamedKey::RightArrow) => 0xff53,
        KeyArg::Named(NamedKey::DownArrow) => 0xff54,
        KeyArg::Named(NamedKey::PageUp) => 0xff55,
        KeyArg::Named(NamedKey::PageDown) => 0xff56,
        KeyArg::Named(NamedKey::End) => 0xff57,
        KeyArg::Named(NamedKey::Delete) => 0xffff,
        KeyArg::Named(NamedKey::Shift) => 0xffe1,
        KeyArg::Named(NamedKey::Control) => 0xffe3,
        KeyArg::Named(NamedKey::Alt) => 0xffe9,
        KeyArg::Named(NamedKey::Meta) => 0xffeb,
        KeyArg::Named(NamedKey::F1) => 0xffbe,
        KeyArg::Named(NamedKey::F2) => 0xffbf,
        KeyArg::Named(NamedKey::F3) => 0xffc0,
        KeyArg::Named(NamedKey::F4) => 0xffc1,
        KeyArg::Named(NamedKey::F5) => 0xffc2,
        KeyArg::Named(NamedKey::F6) => 0xffc3,
        KeyArg::Named(NamedKey::F7) => 0xffc4,
        KeyArg::Named(NamedKey::F8) => 0xffc5,
        KeyArg::Named(NamedKey::F9) => 0xffc6,
        KeyArg::Named(NamedKey::F10) => 0xffc7,
        KeyArg::Named(NamedKey::F11) => 0xffc8,
        KeyArg::Named(NamedKey::F12) => 0xffc9,
        KeyArg::Unicode(ch) => if (ch as u32) <= 0xff { ch as u32 } else { 0x0100_0000 | (ch as u32) },
    }
}

/// The X11 keysym of a key.
pub fn keysym_for_key(key: KeyArg) -> (k: u32)
    ensures
        k == spec_keysym(key),
{
    match key {
        KeyArg::Named(NamedKey::Backspace) => 0xff08,
        KeyArg::Named(NamedKey::Tab) => 0xff09,
        KeyArg::Named(NamedKey::Return) => 0xff0d,
        KeyArg::Named(NamedKey::Escape) => 0xff1b,
        KeyArg::Named(NamedKey::Space) => 0x0020,
        KeyArg::Named(NamedKey::Home) => 0xff50,
        KeyArg::Named(NamedKey::LeftArrow) => 0xff51,
        KeyArg::Named(NamedKey::UpArrow) => 0xff52,
        KeyArg::Named(NamedKey::RightArrow) => 0xff53,
        KeyArg::Named(NamedKey::DownArrow) => 0xff54,
        KeyArg::Named(NamedKey::PageUp) => 0xff55,
        KeyArg::Named(NamedKey::PageDown) => 0xff56,
        KeyArg::Named(NamedKey::End) => 0xff57,
        KeyArg::Named(NamedKey::Delete) => 0xffff,
        KeyArg::Named(NamedKey::Shift) => 0xffe1,
        KeyArg::Named(NamedKey::Control) => 0xffe3,
        KeyArg::Named(NamedKey::Alt) => 0xffe9,
        KeyArg::Named(NamedKey::Meta) => 0xffeb,
        KeyArg::Named(NamedKey::F1) => 0xffbe,
        KeyArg::Named(NamedKey::F2) => 0xffbf,
        KeyArg::Named(NamedKey::F3) => 0xffc0,
        KeyArg::Named(NamedKey::F4) => 0xffc1,
        KeyArg::Named(NamedKey::F5) => 0xffc2,
        KeyArg::Named(NamedKey::F6) => 0xffc3,
        KeyArg::Named(NamedKey::F7) => 0xffc4,
        KeyArg::Named(NamedKey::F8) => 0xffc5,
        KeyArg::Named(NamedKey::F9) => 0xffc6,
        KeyArg::Named(NamedKey::F10) => 0xffc7,
        KeyArg::Named(NamedKey::F11) => 0xffc8,
        KeyArg::Named(NamedKey::F12) => 0xffc9,
        KeyArg::Unicode(ch) => {
            let code = ch as u32;
            if code <= 0xff {
                code
            } else {
                0x0100_0000 | code
            }
        },
    }
}

/// The X11 keysyms of the named keys (`XK_…` in X11's keysymdef.h).
pub open spec fn x11_keysyms() -> Seq<(NamedKey, u32)> {
    seq![
        (NamedKey::Backspace, 0xff08),  // XK_BackSpace
        (NamedKey::Tab, 0xff09),  // XK_Tab
        (NamedKey::Return, 0xff0d),  // XK_Return
        (NamedKey::Escape, 0xff1b),  // XK_Escape
        (NamedKey::Space, 0x0020),  // XK_space
        (NamedKey::Home, 0xff50),  // XK_Home
        (NamedKey::LeftArrow, 0xff51),  // XK_Left
        (NamedKey::UpArrow, 0xff52),  // XK_Up
        (NamedKey::RightArrow, 0xff53),  // XK_Right
        (NamedKey::DownArrow, 0xff54),  // XK_Down
        (NamedKey::PageUp, 0xff55),  // XK_Prior
        (NamedKey::PageDown, 0xff56),  // XK_Next
        (NamedKey::End, 0xff57),  // XK_End
        (NamedKey::Delete, 0xffff),  // XK_Delete
        (NamedKey::Shift, 0xffe1),  // XK_Shift_L
        (NamedKey::Control, 0xffe3),  // XK_Control_L
        (NamedKey::Alt, 0xffe9),  // XK_Alt_L
        (NamedKey::Meta, 0xffeb),  // XK_Super_L
        (NamedKey::F1, 0xffbe),  // XK_F1
        (NamedKey::F2, 0xffbf),  // XK_F2
        (NamedKey::F3, 0xffc0),  // XK_F3
        (NamedKey::F4, 0xffc1),  // XK_F4
        (NamedKey::F5, 0xffc2),  // XK_F5
        (NamedKey::F6, 0xffc3),  // XK_F6
        (NamedKey::F7, 0xffc4),  // XK_F7
        (NamedKey::F8, 0xffc5),  // XK_F8
        (NamedKey::F9, 0xffc6),  // XK_F9
        (NamedKey::F10, 0xffc7),  // XK_F10
        (NamedKey::F11, 0xffc8),  // XK_F11
        (NamedKey::F12, 0xffc9),  // XK_F12
    ]
}

/// The key has a row in the keysym table.
pub open spec fn listed_in_keysyms(k: NamedKey) -> bool {
    exists|i: int| 0 <= i < x11_keysyms().len() && #[trigger] x11_keysyms()[i].0 == k
}

/// Each named key is sent as its X11 keysym, and every named key has one.
pub proof fn lemma_keysym_table()
    ensures
        forall|i: int|
            0 <= i < x11_keysyms().len() ==> spec_keysym(KeyArg::Named(#[trigger] x11_keysyms()[i].0))
                == x11_keysyms()[i].1,
        forall|k: NamedKey| #[trigger] listed_in_keysyms(k),
{
    let t = x11_keysyms();
    assert forall|k: NamedKey| #[trigger] listed_in_keysyms(k) by {
        match k {
            NamedKey::Backspace => {
                assert(t[0].0 == k);
            },
            NamedKey::Tab => {
                assert(t[1].0 == k);
            },
            NamedKey::Return => {
                assert(t[2].0 == k);
            },
            NamedKey::Escape => {
                assert(t[3].0 == k);
            },
            NamedKey::Space => {
                assert(t[4].0 == k);
            },
            NamedKey::Home => {
                assert(t[5].0 == k);
            },
            NamedKey::LeftArrow => {
                assert(t[6].0 == k);
            },
            NamedKey::UpArrow => {
                assert(t[7].0 == k);
            },
            NamedKey::RightArrow => {
                assert(t[8].0 == k);
            },
            NamedKey::DownArrow => {
                assert(t[9].0 == k);
            },
            NamedKey::PageUp => {
                assert(t[10].0 == k);
            },
            NamedKey::PageDown => {
                assert(t[11].0 == k);
            },
            NamedKey::End => {
                assert(t[12].0 == k);
            },
            NamedKey::Delete => {
                assert(t[13].0 == k);
            },
            NamedKey::Shift => {
                assert(t[14].0 == k);
            },
            NamedKey::Control => {
                assert(t[15].0 == k);
            },
            NamedKey::Alt => {
                assert(t[16].0 == k);
            },
            NamedKey::Meta => {
                assert(t[17].0 == k);
            },
            NamedKey::F1 => {
                assert(t[18].0 == k);
            },
            NamedKey::F2 => {
                assert(t[19].0 == k);
            },
            NamedKey::F3 => {
                assert(t[20].0 == k);
            },
            NamedKey::F4 => {
                assert(t[21].0 == k);
            },
            NamedKey::F5 => {
                assert(t[22].0 == k);
            },
            NamedKey::F6 => {
                assert(t[23].0 == k);
            },
            NamedKey::F7 => {
                assert(t[24].0 == k);
            },
            NamedKey::F8 => {
                assert(t[25].0 == k);
            },
            NamedKey::F9 => {
                assert(t[26].0 == k);
            },
            NamedKey::F10 => {
                assert(t[27].0 == k);
            },
            NamedKey::F11 => {
                assert(t[28].0 == k);
            },
            NamedKey::F12 => {
                assert(t[29].0 == k);
            },
        }
    }
}

/// Different named keys have different keysyms.
pub proof fn lemma_keysyms_distinct(a: NamedKey, b: NamedKey)
    requires
        a != b,
    ensures
        spec_keysym(KeyArg::Named(a)) != spec_keysym(KeyArg::Named(b)),
{
}

/// A character is sent as its own code when it is Latin-1, and as
/// `0x0100_0000` plus its code otherwise (X11's Unicode keysyms).
pub proof fn lemma_keysym_of_character(c: char)
    ensures
        spec_keysym(KeyArg::Unicode(c)) == if (c as u32) <= 0xff {
            c as u32 as int
        } else {
            0x0100_0000 + c as u32
        },
{
    let x = c as u32;
    assert(x <= 0x10ffff);
    assert((0x0100_0000u32 | x) == 0x0100_0000u32 + x) by (bit_vector)
        requires
            x <= 0x10ffff,
    ;
}

#[derive(Debug, Clone, Copy, PartialEq, Eq, Structural)]
pub enum MouseButtonArg {
    Left,
    Right,
    Middle,
}

/// The mouse button that a name, in any ASCII case, stands for.
pub open spec fn mouse_button_of(name: Seq<char>) -> Option<MouseButtonArg> {
    if name == "left"@ {
        Some(MouseButtonArg::Left)
    } else if name == "right"@ {
        Some(MouseButtonArg::Right)
    } else if name == "middle"@ {
        Some(MouseButtonArg::Middle)
    } else {
        None
    }
}

impl MouseButtonArg {
    pub fn parse(value: &str) -> (r: Result<MouseButtonArg, InputError>)
        ensures
            match r {
                Ok(b) => mouse_button_of(ascii_lower_seq(value@)) == Some(b),
                Err(InputError::InvalidMouseButton(v)) => mouse_button_of(ascii_lower_seq(value@)) is None
                    && v@ == value@,
                Err(_) => false,
            },
    {
        let lowered = str_to_ascii_lowercase(value);
        if equals_literal(&lowered, "left") {
            Ok(MouseButtonArg::Left)
        } else if equals_literal(&lowered, "right") {
            Ok(MouseButtonArg::Right)
        } else if equals_literal(&lowered, "middle") {
            Ok(MouseButtonArg::Middle)
        } else {
            Err(InputError::InvalidMouseButton(value.to_string()))
        }
    }
}

/// The names of the mouse buttons.
pub open spec fn mouse_button_names() -> Seq<(Seq<char>, MouseButtonArg)> {
    seq![("left"@, MouseButtonArg::Left), ("right"@, MouseButtonArg::Right), ("middle"@, MouseButtonArg::Middle)]
}

/// Each button name names its button, in lower or upper case, and a name
/// names a button only when, lower-cased, it is one of these names.
pub proof fn lemma_mouse_button_names(value: Seq<char>)
    ensures
        forall|i: int|
            0 <= i < mouse_button_names().len() ==> {
                &&& mouse_button_of(ascii_lower_seq(#[trigger] mouse_button_names()[i].0)) == Some(
                    mouse_button_names()[i].1,
                )
                &&& mouse_button_of(ascii_lower_seq(ascii_upper_seq(mouse_button_names()[i].0))) == Some(
                    mouse_button_names()[i].1,
                )
            },
        mouse_button_of(ascii_lower_seq(value)) is Some ==> exists|i: int|
            0 <= i < mouse_button_names().len() && #[trigger] mouse_button_names()[i] == (
                ascii_lower_seq(value),
                mouse_button_of(ascii_lower_seq(value))->0,
            ),
{
    reveal_strlit("left");
    reveal_strlit("right");
    reveal_strlit("middle");
    assert("left"@ =~= seq!['l', 'e', 'f', 't']);
    assert("right"@ =~= seq!['r', 'i', 'g', 'h', 't']);
    assert("middle"@ =~= seq!['m', 'i', 'd', 'd', 'l', 'e']);
    let t = mouse_button_names();
    assert forall|i: int| 0 <= i < t.len() implies {
        &&& mouse_button_of(ascii_lower_seq(#[trigger] t[i].0)) == Some(t[i].1)
        &&& mouse_button_of(ascii_lower_seq(ascii_upper_seq(t[i].0))) == Some(t[i].1)
    } by {
        lemma_plain_name(t[i].0);
    }
    let n = ascii_lower_seq(value);
    if n == "left"@ {
        assert(t[0] == (n, MouseButtonArg::Left));
    } else if n == "right"@ {
        assert(t[1] == (n, MouseButtonArg::Right));
    } else if n == "middle"@ {
        assert(t[2] == (n, MouseButtonArg::Middle));
    }
}

/// Which mouse buttons are held down.
#[derive(Debug, Clone, Copy, PartialEq, Eq, Structural)]
pub struct ButtonState {
    pub left: bool,
    pub right: bool,
    pub middle: bool,
}

impl Default for ButtonState {
    fn default() -> (s: Self)
        ensures
            !s.left && !s.right && !s.middle,
    {
        ButtonState { left: false, right: false, middle: false }
    }
}

impl ButtonState {
    pub open spec fn spec_set(self, button: MouseButtonArg, pressed: bool) -> ButtonState {
        match button {
            MouseButtonArg::Left => ButtonState { left: pressed, ..self },
            MouseButtonArg::Right => ButtonState { right: pressed, ..self },
            MouseButtonArg::Middle => ButtonState { middle: pressed, ..self },
        }
    }

    pub fn set(&mut self, button: MouseButtonArg, pressed: bool)
        ensures
            *final(self) == old(self).spec_set(button, pressed),
    {
        match button {
            MouseButtonArg::Left => self.left = pressed,
            MouseButtonArg::Right => self.right = pressed,
            MouseButtonArg::Middle => self.middle = pressed,
        }
    }
}

/// How a key or a button is actuated.
#[derive(Debug, Clone, Copy, PartialEq, Eq, Structural)]
pub enum KeyDirection {
    Press,
    Release,
    Click,
}

/// After a press a key is held; after a release or a click it is not.
pub open spec fn held_after(direction: KeyDirection) -> bool {
    direction == KeyDirection::Press
}

/// The modifier state after `key` went `direction`.
pub open spec fn spec_track_key(state: ModifierState, key: KeyArg, direction: KeyDirection) -> ModifierState {
    match key.spec_modifier() {
        Some(m) => state.spec_set(m, held_after(direction)),
        None => state,
    }
}

/// Records in the modifier state what a key event did to it.
pub fn track_key(state: &mut ModifierState, key: KeyArg, direction: KeyDirection)
    ensures
        *final(state) == spec_track_key(*old(state), key, direction),
{
    if let Some(modifier) = key.modifier() {
        match direction {
            KeyDirection::Click => state.set(modifier, false),
            KeyDirection::Press => state.set(modifier, true),
            KeyDirection::Release => state.set(modifier, false),
        }
    }
}

/// Records in the button state what a button event did to it.
pub fn track_button(state: &mut ButtonState, button: MouseButtonArg, direction: KeyDirection)
    ensures
        *final(state) == old(state).spec_set(button, held_after(direction)),
{
    match direction {
        KeyDirection::Click => state.set(button, false),
        KeyDirection::Press => state.set(button, true),
        KeyDirection::Release => state.set(button, false),
    }
}

/// The key that holds a modifier.
pub open spec fn spec_modifier_key(m: ModifierKey) -> KeyArg {
    match m {
        ModifierKey::Shift => KeyArg::Named(NamedKey::Shift),
        ModifierKey::Control => KeyArg::Named(NamedKey::Control),
        ModifierKey::Alt => KeyArg::Named(NamedKey::Alt),
        ModifierKey::Meta => KeyArg::Named(NamedKey::Meta),
    }
}

pub fn modifier_key(m: ModifierKey) -> (k: KeyArg)
    ensures
        k == spec_modifier_key(m),
        k.spec_modifier() == Some(m),
{
    match m {
        ModifierKey::Shift => KeyArg::Named(NamedKey::Shift),
        ModifierKey::Control => KeyArg::Named(NamedKey::Control),
        ModifierKey::Alt => KeyArg::Named(NamedKey::Alt),
        ModifierKey::Meta => KeyArg::Named(NamedKey::Meta),
    }
}

/// One key event to send.
#[derive(Debug, Clone, Copy, PartialEq, Eq, Structural)]
pub struct KeyEvent {
    pub key: KeyArg,
    pub direction: KeyDirection,
}

/// The modifiers among `mods` that a tap has to press itself, in order, and the
/// state once they are pressed: a modifier already held — before the tap or by
/// an earlier press of the tap — is left alone.
pub open spec fn tap_presses(state: ModifierState, mods: Seq<ModifierKey>) -> (Seq<ModifierKey>, ModifierState)
    decreases mods.len(),
{
    if mods.len() == 0 {
        (Seq::empty(), state)
    } else {
        let (pressed, s) = tap_presses(state, mods.drop_last());
        let m = mods.last();
        if s.spec_is_pressed(m) {
            (pressed, s)
        } else {
            (pressed.push(m), s.spec_set(m, true))
        }
    }
}

pub open spec fn press_events(mods: Seq<ModifierKey>) -> Seq<KeyEvent> {
    mods.map_values(|m: ModifierKey| KeyEvent { key: spec_modifier_key(m), direction: KeyDirection::Press })
}

pub open spec fn release_events(mods: Seq<ModifierKey>) -> Seq<KeyEvent> {
    mods.reverse().map_values(|m: ModifierKey| KeyEvent { key: spec_modifier_key(m), direction: KeyDirection::Release })
}

/// A key tap with modifiers: press the modifiers not held yet, click the key,
/// release what was pressed in reverse order.
pub open spec fn spec_key_tap_plan(state: ModifierState, key: KeyArg, mods: Seq<ModifierKey>) -> Seq<KeyEvent> {
    let pressed = tap_presses(state, mods).0;
    press_events(pressed).push(KeyEvent { key, direction: KeyDirection::Click }) + release_events(pressed)
}

/// The events of a key tap with `modifiers` held, given the current state.
pub fn key_tap_plan(state: ModifierState, key: KeyArg, modifiers: &[ModifierKey]) -> (plan: Vec<KeyEvent>)
    ensures
        plan@ == spec_key_tap_plan(state, key, modifiers@),
{
    let mut temporary: Vec<ModifierKey> = Vec::new();
    let mut current = state;
    let mut i: usize = 0;
    while i < modifiers.len()
        invariant
            i <= modifiers@.len(),
            (temporary@, current) == tap_presses(state, modifiers@.take(i as int)),
        decreases modifiers@.len() - i,
    {
        let modifier = modifiers[i];
        assert(modifiers@.take(i + 1).drop_last() =~= modifiers@.take(i as int));
        if !current.is_pressed(modifier) {
            current.set(modifier, true);
            temporary.push(modifier);
        }
        i = i + 1;
    }
    assert(modifiers@.take(modifiers@.len() as int) =~= modifiers@);
    let mut plan: Vec<KeyEvent> = Vec::new();
    let mut j: usize = 0;
    while j < temporary.len()
        invariant
            j <= temporary@.len(),
            plan@ == press_events(temporary@).take(j as int),
        decreases temporary@.len() - j,
    {
        plan.push(KeyEvent { key: modifier_key(temporary[j]), direction: KeyDirection::Press });
        j = j + 1;
        assert(plan@ =~= press_events(temporary@).take(j as int));
    }
    assert(press_events(temporary@).take(temporary@.len() as int) =~= press_events(temporary@));
    plan.push(KeyEvent { key, direction: KeyDirection::Click });
    let ghost head = plan@;
    let mut r: usize = temporary.len();
    while r > 0
        invariant
            r <= temporary@.len(),
            plan@ == head + release_events(temporary@).take(temporary@.len() - r),
        decreases r,
    {
        r = r - 1;
        plan.push(KeyEvent { key: modifier_key(temporary[r]), direction: KeyDirection::Release });
        assert(plan@ =~= head + release_events(temporary@).take(temporary@.len() - r));
    }
    assert(release_events(temporary@).take(temporary@.len() as int) =~= release_events(temporary@));
    plan
}

/// The modifier state after the events, in order.
pub open spec fn replay(state: ModifierState, events: Seq<KeyEvent>) -> ModifierState
    decreases events.len(),
{
    if events.len() == 0 {
        state
    } else {
        spec_track_key(replay(state, events.drop_last()), events.last().key, events.last().direction)
    }
}

proof fn lemma_replay_concat(s: ModifierState, a: Seq<KeyEvent>, b: Seq<KeyEvent>)
    ensures
        replay(s, a + b) == replay(replay(s, a), b),
    decreases b.len(),
{
    if b.len() > 0 {
        assert((a + b).drop_last() =~= a + b.drop_last());
        lemma_replay_concat(s, a, b.drop_last());
    }
}

/// Sending the same direction for each modifier of `ms`.
pub open spec fn same_direction(ms: Seq<ModifierKey>, d: KeyDirection) -> Seq<KeyEvent> {
    ms.map_values(|m: ModifierKey| KeyEvent { key: spec_modifier_key(m), direction: d })
}

proof fn lemma_replay_same_direction(s: ModifierState, ms: Seq<ModifierKey>, d: KeyDirection, k: ModifierKey)
    ensures
        replay(s, same_direction(ms, d)).spec_is_pressed(k) == if ms.contains(k) {
            held_after(d)
        } else {
            s.spec_is_pressed(k)
        },
    decreases ms.len(),
{
    if ms.len() > 0 {
        assert(same_direction(ms, d).drop_last() =~= same_direction(ms.drop_last(), d));
        lemma_replay_same_direction(s, ms.drop_last(), d, k);
        if ms.drop_last().contains(k) {
            let i = choose|i: int| 0 <= i < ms.drop_last().len() && ms.drop_last()[i] == k;
            assert(ms[i] == k);
        }
        if ms.contains(k) && ms.last() != k {
            let i = choose|i: int| 0 <= i < ms.len() && ms[i] == k;
            assert(ms.drop_last()[i] == k);
        }
    }
}

proof fn lemma_tap_presses(state: ModifierState, mods: Seq<ModifierKey>, k: ModifierKey)
    ensures
        tap_presses(state, mods).1.spec_is_pressed(k) == (state.spec_is_pressed(k) || tap_presses(
            state,
            mods,
        ).0.contains(k)),
        tap_presses(state, mods).0.contains(k) ==> !state.spec_is_pressed(k),
    decreases mods.len(),
{
    if mods.len() > 0 {
        lemma_tap_presses(state, mods.drop_last(), k);
        let (pressed, s) = tap_presses(state, mods.drop_last());
        let m = mods.last();
        if !s.spec_is_pressed(m) {
            let p2 = pressed.push(m);
            if pressed.contains(k) {
                let i = choose|i: int| 0 <= i < pressed.len() && pressed[i] == k;
                assert(p2[i] == k);
            }
            if p2.contains(k) && k != m {
                let i = choose|i: int| 0 <= i < p2.len() && p2[i] == k;
                assert(pressed[i] == k);
            }
            assert(p2[p2.len() - 1] == m);
            lemma_tap_presses(state, mods.drop_last(), m);
        }
    }
}

proof fn lemma_state_ext(a: ModifierState, b: ModifierState)
    requires
        forall|k: ModifierKey| a.spec_is_pressed(k) == b.spec_is_pressed(k),
    ensures
        a == b,
{
    assert(a.spec_is_pressed(ModifierKey::Shift) == b.spec_is_pressed(ModifierKey::Shift));
    assert(a.spec_is_pressed(ModifierKey::Control) == b.spec_is_pressed(ModifierKey::Control));
    assert(a.spec_is_pressed(ModifierKey::Alt) == b.spec_is_pressed(ModifierKey::Alt));
    assert(a.spec_is_pressed(ModifierKey::Meta) == b.spec_is_pressed(ModifierKey::Meta));
}

/// Tapping a key that is not itself a modifier leaves the held modifiers as it
/// found them: what the tap presses, it releases again.
pub proof fn lemma_key_tap_restores_modifiers(state: ModifierState, key: KeyArg, mods: Seq<ModifierKey>)
    requires
        key.spec_modifier() is None,
    ensures
        replay(state, spec_key_tap_plan(state, key, mods)) == state,
{
    let pressed = tap_presses(state, mods).0;
    let presses = press_events(pressed);
    let click = seq![KeyEvent { key, direction: KeyDirection::Click }];
    let releases = release_events(pressed);
    assert(presses =~= same_direction(pressed, KeyDirection::Press));
    assert(releases =~= same_direction(pressed.reverse(), KeyDirection::Release));
    assert(spec_key_tap_plan(state, key, mods) =~= (presses + click) + releases);
    lemma_replay_concat(state, presses + click, releases);
    lemma_replay_concat(state, presses, click);
    let s1 = replay(state, presses);
    assert(click.drop_last() =~= Seq::<KeyEvent>::empty());
    assert(replay(s1, click.drop_last()) == s1);
    assert(click.last() == KeyEvent { key, direction: KeyDirection::Click });
    assert(replay(s1, click) == spec_track_key(s1, key, KeyDirection::Click));
    assert(replay(s1, click) == s1);
    assert forall|k: ModifierKey| #[trigger] replay(s1, releases).spec_is_pressed(k) == state.spec_is_pressed(k) by {
        lemma_replay_same_direction(state, pressed, KeyDirection::Press, k);
        lemma_replay_same_direction(s1, pressed.reverse(), KeyDirection::Release, k);
        lemma_tap_presses(state, mods, k);
        if pressed.contains(k) {
            let i = choose|i: int| 0 <= i < pressed.len() && pressed[i] == k;
            assert(pressed.reverse()[pressed.len() - 1 - i] == k);
        }
        if pressed.reverse().contains(k) {
            let i = choose|i: int| 0 <= i < pressed.reverse().len() && pressed.reverse()[i] == k;
            assert(pressed[pressed.len() - 1 - i] == k);
        }
    }
    lemma_state_ext(replay(s1, releases), state);
}

} // verus!
