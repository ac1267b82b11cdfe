//! The command line that asks for a given command, and the law that the
//! parser reads each such command line back as that command.
use vstd::prelude::*;

use crate::cli::{
    all_digits, digits_value, finish_command, first_eq, is_digit, is_flag, no_options, option_given,
    option_named, with_option, OptionKind, ParsedOptions, parse_command_line, parse_value,
    positional_kinds, signed_number, sub_walk, subcommand_name, subcommand_named, top_walk, unsigned_number, ArgValue,
    ButtonChoice, CliArgs, CliCommand, CliError, ModifierChoice, OnOff, ScrollAxisChoice, Subcommand, ValueKind,
};
use crate::text::{decimal, decimal_digits};

verus! {

/// The word for an on/off state.
pub open spec fn state_word(s: OnOff) -> Seq<char> {
    match s {
        OnOff::On => "on"@,
        OnOff::Off => "off"@,
    }
}

/// The word for a mouse button.
pub open spec fn button_word(b: ButtonChoice) -> Seq<char> {
    match b {
        ButtonChoice::Left => "left"@,
        ButtonChoice::Right => "right"@,
        ButtonChoice::Middle => "middle"@,
    }
}

/// The word for a scroll axis.
pub open spec fn axis_word(a: ScrollAxisChoice) -> Seq<char> {
    match a {
        ScrollAxisChoice::Vertical => "vertical"@,
        ScrollAxisChoice::Horizontal => "horizontal"@,
    }
}

/// The word for a modifier.
pub open spec fn modifier_word(m: ModifierChoice) -> Seq<char> {
    match m {
        ModifierChoice::Shift => "shift"@,
        ModifierChoice::Control => "control"@,
        ModifierChoice::Alt => "alt"@,
        ModifierChoice::Meta => "meta"@,
    }
}

/// An option with its value: one token `--name=value` when `joined`, else
/// the two tokens `--name` and `value`.
pub open spec fn option_tokens(name: Seq<char>, value: Seq<char>, joined: bool) -> Seq<Seq<char>> {
    if joined {
        seq!["--"@ + name + "="@ + value]
    } else {
        seq!["--"@ + name, value]
    }
}

/// A subcommand's name, its option tokens, then its positional values, with
/// `--` before them when `dashes` (and there are any).
pub open spec fn invocation(
    name: Seq<char>,
    options: Seq<Seq<char>>,
    values: Seq<Seq<char>>,
    dashes: bool,
) -> Seq<Seq<char>> {
    seq![name] + options + dash_part(values, dashes) + values
}

pub open spec fn dash_part(values: Seq<Seq<char>>, dashes: bool) -> Seq<Seq<char>> {
    if dashes && values.len() > 0 {
        seq!["--"@]
    } else {
        seq![]
    }
}

/// The button option of a mouse command: always written when `explicit`,
/// otherwise left out for the default, the left button.
pub open spec fn button_options(b: ButtonChoice, explicit: bool, joined: bool) -> Seq<Seq<char>> {
    if !explicit && b == ButtonChoice::Left {
        seq![]
    } else {
        option_tokens("button"@, button_word(b), joined)
    }
}

/// The axis option of a scroll: always written when `explicit`, otherwise left
/// out for the default, the vertical axis.
pub open spec fn axis_options(a: ScrollAxisChoice, explicit: bool, joined: bool) -> Seq<Seq<char>> {
    if !explicit && a == ScrollAxisChoice::Vertical {
        seq![]
    } else {
        option_tokens("axis"@, axis_word(a), joined)
    }
}

/// One `--mod` option per modifier, in order.
pub open spec fn mod_options(ms: Seq<ModifierChoice>, joined: bool) -> Seq<Seq<char>>
    decreases ms.len(),
{
    if ms.len() == 0 {
        seq![]
    } else {
        option_tokens("mod"@, modifier_word(ms[0]), joined) + mod_options(ms.drop_first(), joined)
    }
}

/// The arguments, after `--cli`, that ask for command `c`: the subcommand's
/// name, its options, then its positional values in the order in which the
/// usage names them (numbers in decimal). Options are joined to their values
/// by `=` or given as two tokens; default options are written or left out;
/// the values follow `--` or stand on their own.
pub open spec fn command_line_for(
    c: CliCommand<Seq<char>, Seq<ModifierChoice>>,
    explicit: bool,
    joined: bool,
    dashes: bool,
) -> Seq<Seq<char>> {
    match c {
        CliCommand::ListWindows { search } => match search {
            None => invocation("list-windows"@, seq![], seq![], dashes),
            Some(q) => invocation("list-windows"@, option_tokens("search"@, q, joined), seq![], dashes),
        },
        CliCommand::WindowInfo { id } => invocation("window-info"@, seq![], seq![decimal(id as int)], dashes),
        CliCommand::WindowAtPoint { x, y } => invocation(
            "window-at-point"@,
            seq![],
            seq![decimal(x as int), decimal(y as int)],
            dashes,
        ),
        CliCommand::CursorPosition => invocation("cursor-position"@, seq![], seq![], dashes),
        CliCommand::Focus { id } => invocation("focus"@, seq![], seq![decimal(id as int)], dashes),
        CliCommand::Move { id, x, y } => invocation(
            "move"@,
            seq![],
            seq![decimal(id as int), decimal(x as int), decimal(y as int)],
            dashes,
        ),
        CliCommand::Resize { id, width, height } => invocation(
            "resize"@,
            seq![],
            seq![decimal(id as int), decimal(width as int), decimal(height as int)],
            dashes,
        ),
        CliCommand::AlwaysOnTop { id, state } => invocation(
            "always-on-top"@,
            seq![],
            seq![decimal(id as int), state_word(state)],
            dashes,
        ),
        CliCommand::CaptureScreen { output } => invocation(
            "capture-screen"@,
            option_tokens("output"@, output, joined),
            seq![],
            dashes,
        ),
        CliCommand::CaptureWindow { id, output } => invocation(
            "capture-window"@,
            option_tokens("output"@, output, joined),
            seq![decimal(id as int)],
            dashes,
        ),
        CliCommand::SendText { text } => invocation("send-text"@, seq![], seq![text], dashes),
        CliCommand::MoveMouse { x, y } => invocation(
            "move-mouse"@,
            seq![],
            seq![decimal(x as int), decimal(y as int)],
            dashes,
        ),
        CliCommand::Click { x, y, button } => invocation(
            "click"@,
            button_options(button, explicit, joined),
            seq![decimal(x as int), decimal(y as int)],
            dashes,
        ),
        CliCommand::MouseDown { x, y, button } => invocation(
            "mouse-down"@,
            button_options(button, explicit, joined),
            seq![decimal(x as int), decimal(y as int)],
            dashes,
        ),
        CliCommand::MouseUp { x, y, button } => invocation(
            "mouse-up"@,
            button_options(button, explicit, joined),
            seq![decimal(x as int), decimal(y as int)],
            dashes,
        ),
        CliCommand::Drag { start_x, start_y, end_x, end_y, button } => invocation(
            "drag"@,
            button_options(button, explicit, joined),
            seq![decimal(start_x as int), decimal(start_y as int), decimal(end_x as int), decimal(end_y as int)],
            dashes,
        ),
        CliCommand::Scroll { amount, axis } => invocation(
            "scroll"@,
            axis_options(axis, explicit, joined),
            seq![decimal(amount as int)],
            dashes,
        ),
        CliCommand::KeyDown { key } => invocation("key-down"@, seq![], seq![key], dashes),
        CliCommand::KeyUp { key } => invocation("key-up"@, seq![], seq![key], dashes),
        CliCommand::KeyTap { key, modifiers } => invocation(
            "key-tap"@,
            mod_options(modifiers, joined),
            seq![key],
            dashes,
        ),
        CliCommand::CheckPermissions => invocation("check-permissions"@, seq![], seq![], dashes),
        CliCommand::Version => invocation("version"@, seq![], seq![], dashes),
    }
}

/// `c` can be written this way: the capture commands need a non-empty output
/// path; a value given as a token of its own must not read as an option; and
/// without `--`, no positional value may read as one either (a negative
/// number does).
pub open spec fn spelling_reads_back(
    c: CliCommand<Seq<char>, Seq<ModifierChoice>>,
    joined: bool,
    dashes: bool,
) -> bool {
    match c {
        CliCommand::ListWindows { search } => match search {
            Some(q) => joined || !is_flag(q),
            None => true,
        },
        CliCommand::WindowAtPoint { x, y } => dashes || (x >= 0 && y >= 0),
        CliCommand::Move { x, y, .. } => dashes || (x >= 0 && y >= 0),
        CliCommand::CaptureScreen { output } => output.len() > 0 && (joined || !is_flag(output)),
        CliCommand::CaptureWindow { output, .. } => output.len() > 0 && (joined || !is_flag(output)),
        CliCommand::SendText { text } => dashes || !is_flag(text),
        CliCommand::MoveMouse { x, y } => dashes || (x >= 0 && y >= 0),
        CliCommand::Click { x, y, .. } => dashes || (x >= 0 && y >= 0),
        CliCommand::MouseDown { x, y, .. } => dashes || (x >= 0 && y >= 0),
        CliCommand::MouseUp { x, y, .. } => dashes || (x >= 0 && y >= 0),
        CliCommand::Drag { start_x, start_y, end_x, end_y, .. } => dashes || (start_x >= 0 && start_y >= 0
            && end_x >= 0 && end_y >= 0),
        CliCommand::Scroll { amount, .. } => dashes || amount >= 0,
        CliCommand::KeyDown { key } => dashes || !is_flag(key),
        CliCommand::KeyUp { key } => dashes || !is_flag(key),
        CliCommand::KeyTap { key, .. } => dashes || !is_flag(key),
        _ => true,
    }
}

/// The characters of the words that command lines are written with.
proof fn lemma_words()
    ensures
        "search"@ == seq!['s', 'e', 'a', 'r', 'c', 'h'],
        "output"@ == seq!['o', 'u', 't', 'p', 'u', 't'],
        "button"@ == seq!['b', 'u', 't', 't', 'o', 'n'],
        "axis"@ == seq!['a', 'x', 'i', 's'],
        "mod"@ == seq!['m', 'o', 'd'],
        "help"@ == seq!['h', 'e', 'l', 'p'],
        "left"@ == seq!['l', 'e', 'f', 't'],
        "right"@ == seq!['r', 'i', 'g', 'h', 't'],
        "middle"@ == seq!['m', 'i', 'd', 'd', 'l', 'e'],
        "vertical"@ == seq!['v', 'e', 'r', 't', 'i', 'c', 'a', 'l'],
        "horizontal"@ == seq!['h', 'o', 'r', 'i', 'z', 'o', 'n', 't', 'a', 'l'],
        "shift"@ == seq!['s', 'h', 'i', 'f', 't'],
        "control"@ == seq!['c', 'o', 'n', 't', 'r', 'o', 'l'],
        "alt"@ == seq!['a', 'l', 't'],
        "meta"@ == seq!['m', 'e', 't', 'a'],
        "on"@ == seq!['o', 'n'],
        "off"@ == seq!['o', 'f', 'f'],
        "--"@ == seq!['-', '-'],
        "--cli"@ == seq!['-', '-', 'c', 'l', 'i'],
        "cli"@ == seq!['c', 'l', 'i'],
        "="@ == seq!['='],
        "list-windows"@ == seq!['l', 'i', 's', 't', '-', 'w', 'i', 'n', 'd', 'o', 'w', 's'],
        "window-info"@ == seq!['w', 'i', 'n', 'd', 'o', 'w', '-', 'i', 'n', 'f', 'o'],
        "window-at-point"@ == seq!['w', 'i', 'n', 'd', 'o', 'w', '-', 'a', 't', '-', 'p', 'o', 'i', 'n', 't'],
        "cursor-position"@ == seq!['c', 'u', 'r', 's', 'o', 'r', '-', 'p', 'o', 's', 'i', 't', 'i', 'o', 'n'],
        "focus"@ == seq!['f', 'o', 'c', 'u', 's'],
        "move"@ == seq!['m', 'o', 'v', 'e'],
        "resize"@ == seq!['r', 'e', 's', 'i', 'z', 'e'],
        "always-on-top"@ == seq!['a', 'l', 'w', 'a', 'y', 's', '-', 'o', 'n', '-', 't', 'o', 'p'],
        "capture-screen"@ == seq!['c', 'a', 'p', 't', 'u', 'r', 'e', '-', 's', 'c', 'r', 'e', 'e', 'n'],
        "capture-window"@ == seq!['c', 'a', 'p', 't', 'u', 'r', 'e', '-', 'w', 'i', 'n', 'd', 'o', 'w'],
        "send-text"@ == seq!['s', 'e', 'n', 'd', '-', 't', 'e', 'x', 't'],
        "move-mouse"@ == seq!['m', 'o', 'v', 'e', '-', 'm', 'o', 'u', 's', 'e'],
        "click"@ == seq!['c', 'l', 'i', 'c', 'k'],
        "mouse-down"@ == seq!['m', 'o', 'u', 's', 'e', '-', 'd', 'o', 'w', 'n'],
        "mouse-up"@ == seq!['m', 'o', 'u', 's', 'e', '-', 'u', 'p'],
        "drag"@ == seq!['d', 'r', 'a', 'g'],
        "scroll"@ == seq!['s', 'c', 'r', 'o', 'l', 'l'],
        "key-down"@ == seq!['k', 'e', 'y', '-', 'd', 'o', 'w', 'n'],
        "key-up"@ == seq!['k', 'e', 'y', '-', 'u', 'p'],
        "key-tap"@ == seq!['k', 'e', 'y', '-', 't', 'a', 'p'],
        "check-permissions"@ == seq!['c', 'h', 'e', 'c', 'k', '-', 'p', 'e', 'r', 'm', 'i', 's', 's', 'i', 'o', 'n', 's'],
        "version"@ == seq!['v', 'e', 'r', 's', 'i', 'o', 'n'],
{
    reveal_strlit("search");
    assert("search"@ =~= seq!['s', 'e', 'a', 'r', 'c', 'h']);
    reveal_strlit("output");
    assert("output"@ =~= seq!['o', 'u', 't', 'p', 'u', 't']);
    reveal_strlit("button");
    assert("button"@ =~= seq!['b', 'u', 't', 't', 'o', 'n']);
    reveal_strlit("axis");
    assert("axis"@ =~= seq!['a', 'x', 'i', 's']);
    reveal_strlit("mod");
    assert("mod"@ =~= seq!['m', 'o', 'd']);
    reveal_strlit("help");
    assert("help"@ =~= seq!['h', 'e', 'l', 'p']);
    reveal_strlit("left");
    assert("left"@ =~= seq!['l', 'e', 'f', 't']);
    reveal_strlit("right");
    assert("right"@ =~= seq!['r', 'i', 'g', 'h', 't']);
    reveal_strlit("middle");
    assert("middle"@ =~= seq!['m', 'i', 'd', 'd', 'l', 'e']);
    reveal_strlit("vertical");
    assert("vertical"@ =~= seq!['v', 'e', 'r', 't', 'i', 'c', 'a', 'l']);
    reveal_strlit("horizontal");
    assert("horizontal"@ =~= seq!['h', 'o', 'r', 'i', 'z', 'o', 'n', 't', 'a', 'l']);
    reveal_strlit("shift");
    assert("shift"@ =~= seq!['s', 'h', 'i', 'f', 't']);
    reveal_strlit("control");
    assert("control"@ =~= seq!['c', 'o', 'n', 't', 'r', 'o', 'l']);
    reveal_strlit("alt");
    assert("alt"@ =~= seq!['a', 'l', 't']);
    reveal_strlit("meta");
    assert("meta"@ =~= seq!['m', 'e', 't', 'a']);
    reveal_strlit("on");
    assert("on"@ =~= seq!['o', 'n']);
    reveal_strlit("off");
    assert("off"@ =~= seq!['o', 'f', 'f']);
    reveal_strlit("--");
    assert("--"@ =~= seq!['-', '-']);
    reveal_strlit("--cli");
    assert("--cli"@ =~= seq!['-', '-', 'c', 'l', 'i']);
    reveal_strlit("cli");
    assert("cli"@ =~= seq!['c', 'l', 'i']);
    reveal_strlit("=");
    assert("="@ =~= seq!['=']);
    reveal_strlit("list-windows");
    assert("list-windows"@ =~= seq!['l', 'i', 's', 't', '-', 'w', 'i', 'n', 'd', 'o', 'w', 's']);
    reveal_strlit("window-info");
    assert("window-info"@ =~= seq!['w', 'i', 'n', 'd', 'o', 'w', '-', 'i', 'n', 'f', 'o']);
    reveal_strlit("window-at-point");
    assert("window-at-point"@ =~= seq!['w', 'i', 'n', 'd', 'o', 'w', '-', 'a', 't', '-', 'p', 'o', 'i', 'n', 't']);
    reveal_strlit("cursor-position");
    assert("cursor-position"@ =~= seq!['c', 'u', 'r', 's', 'o', 'r', '-', 'p', 'o', 's', 'i', 't', 'i', 'o', 'n']);
    reveal_strlit("focus");
    assert("focus"@ =~= seq!['f', 'o', 'c', 'u', 's']);
    reveal_strlit("move");
    assert("move"@ =~= seq!['m', 'o', 'v', 'e']);
    reveal_strlit("resize");
    assert("resize"@ =~= seq!['r', 'e', 's', 'i', 'z', 'e']);
    reveal_strlit("always-on-top");
    assert("always-on-top"@ =~= seq!['a', 'l', 'w', 'a', 'y', 's', '-', 'o', 'n', '-', 't', 'o', 'p']);
    reveal_strlit("capture-screen");
    assert("capture-screen"@ =~= seq!['c', 'a', 'p', 't', 'u', 'r', 'e', '-', 's', 'c', 'r', 'e', 'e', 'n']);
    reveal_strlit("capture-window");
    assert("capture-window"@ =~= seq!['c', 'a', 'p', 't', 'u', 'r', 'e', '-', 'w', 'i', 'n', 'd', 'o', 'w']);
    reveal_strlit("send-text");
    assert("send-text"@ =~= seq!['s', 'e', 'n', 'd', '-', 't', 'e', 'x', 't']);
    reveal_strlit("move-mouse");
    assert("move-mouse"@ =~= seq!['m', 'o', 'v', 'e', '-', 'm', 'o', 'u', 's', 'e']);
    reveal_strlit("click");
    assert("click"@ =~= seq!['c', 'l', 'i', 'c', 'k']);
    reveal_strlit("mouse-down");
    assert("mouse-down"@ =~= seq!['m', 'o', 'u', 's', 'e', '-', 'd', 'o', 'w', 'n']);
    reveal_strlit("mouse-up");
    assert("mouse-up"@ =~= seq!['m', 'o', 'u', 's', 'e', '-', 'u', 'p']);
    reveal_strlit("drag");
    assert("drag"@ =~= seq!['d', 'r', 'a', 'g']);
    reveal_strlit("scroll");
    assert("scroll"@ =~= seq!['s', 'c', 'r', 'o', 'l', 'l']);
    reveal_strlit("key-down");
    assert("key-down"@ =~= seq!['k', 'e', 'y', '-', 'd', 'o', 'w', 'n']);
    reveal_strlit("key-up");
    assert("key-up"@ =~= seq!['k', 'e', 'y', '-', 'u', 'p']);
    reveal_strlit("key-tap");
    assert("key-tap"@ =~= seq!['k', 'e', 'y', '-', 't', 'a', 'p']);
    reveal_strlit("check-permissions");
    assert("check-permissions"@ =~= seq!['c', 'h', 'e', 'c', 'k', '-', 'p', 'e', 'r', 'm', 'i', 's', 's', 'i', 'o', 'n', 's']);
    reveal_strlit("version");
    assert("version"@ =~= seq!['v', 'e', 'r', 's', 'i', 'o', 'n']);
}

proof fn lemma_decimal_digits(n: nat)
    ensures
        all_digits(decimal_digits(n)),
        digits_value(decimal_digits(n)) == n,
    decreases n,
{
    let d = decimal_digits(n);
    let c = (((n % 10) + 48) as u32) as char;
    assert(c as int == (n % 10) + 48);
    if n < 10 {
        assert(n % 10 == n);
        assert(d.drop_last() =~= Seq::<char>::empty());
        assert(digits_value(d.drop_last()) == 0);
        assert(d.last() == c);
    } else {
        lemma_decimal_digits(n / 10);
        let p = decimal_digits(n / 10);
        assert(d.drop_last() =~= p);
        assert(d.last() == c);
        assert(n == (n / 10) * 10 + n % 10);
        assert forall|i: int| 0 <= i < d.len() implies is_digit(#[trigger] d[i]) by {
            if i < p.len() {
                assert(d[i] == p[i]);
            }
        }
    }
}

/// A decimal number reads back as its value; a non-negative one does not
/// read as an option.
proof fn lemma_number_tokens(v: int)
    ensures
        v >= 0 ==> unsigned_number(decimal(v)) == Some(v),
        v >= 0 ==> !is_flag(decimal(v)),
        signed_number(decimal(v)) == Some(v),
{
    if v >= 0 {
        lemma_decimal_digits(v as nat);
        let d = decimal_digits(v as nat);
        assert(is_digit(d[0]));
    } else {
        lemma_decimal_digits((-v) as nat);
        let d = decimal_digits((-v) as nat);
        assert(decimal(v).skip(1) =~= d);
    }
}

/// Each kind of positional value reads back from its token, and the words
/// of the options do not read as options.
proof fn lemma_value_tokens(id: u64, c: i32, z: u32, st: OnOff, t: Seq<char>)
    ensures
        parse_value(ValueKind::Id, decimal(id as int)) == Some(ArgValue::<Seq<char>>::Id(id)),
        parse_value(ValueKind::Coord, decimal(c as int)) == Some(ArgValue::<Seq<char>>::Coord(c)),
        parse_value(ValueKind::Size, decimal(z as int)) == Some(ArgValue::<Seq<char>>::Size(z)),
        parse_value(ValueKind::State, state_word(st)) == Some(ArgValue::<Seq<char>>::State(st)),
        parse_value(ValueKind::Text, t) == Some(ArgValue::<Seq<char>>::Text(t)),
        !is_flag(decimal(id as int)),
        !is_flag(decimal(z as int)),
        c >= 0 ==> !is_flag(decimal(c as int)),
        !is_flag(state_word(st)),
{
    lemma_words();
    lemma_number_tokens(id as int);
    lemma_number_tokens(c as int);
    lemma_number_tokens(z as int);
}

proof fn lemma_first_eq(s: Seq<char>, i: int, m: int)
    requires
        0 <= i <= m <= s.len(),
        forall|j: int| i <= j < m ==> s[j] != '=',
        m < s.len() ==> s[m] == '=',
    ensures
        first_eq(s, i) == m,
    decreases m - i,
{
    if i < m {
        lemma_first_eq(s, i + 1, m);
    }
}

/// The positional values, in order; after `--` (`trailing`) anything is a
/// value, before it only tokens that do not read as options are.
proof fn lemma_values(
    toks: Seq<Seq<char>>,
    i: int,
    sub: Subcommand,
    pos: Seq<ArgValue<Seq<char>>>,
    o: ParsedOptions<Seq<char>, Seq<ModifierChoice>>,
    vals: Seq<ArgValue<Seq<char>>>,
    trailing: bool,
)
    requires
        0 <= i <= toks.len(),
        toks.len() - i == vals.len(),
        pos.len() + vals.len() == positional_kinds(sub).len(),
        forall|j: int|
            0 <= j < vals.len() ==> parse_value(positional_kinds(sub)[pos.len() + j], #[trigger] toks[i + j]) == Some(
                vals[j],
            ),
        !trailing ==> forall|j: int| 0 <= j < vals.len() ==> !is_flag(#[trigger] toks[i + j]),
    ensures
        sub_walk(toks, i, sub, pos, o, trailing) == finish_command(sub, pos + vals, o),
    decreases toks.len() - i,
{
    lemma_words();
    if i == toks.len() {
        assert(pos + vals =~= pos);
    } else {
        assert(toks[i + 0] == toks[i]);
        let rest = vals.drop_first();
        assert forall|j: int|
            0 <= j < rest.len() implies parse_value(
            positional_kinds(sub)[pos.push(vals[0]).len() + j],
            #[trigger] toks[(i + 1) + j],
        ) == Some(rest[j]) by {
            assert(toks[i + (j + 1)] == toks[(i + 1) + j]);
        }
        if !trailing {
            assert forall|j: int| 0 <= j < rest.len() implies !is_flag(#[trigger] toks[(i + 1) + j]) by {
                assert(toks[i + (j + 1)] == toks[(i + 1) + j]);
            }
        }
        lemma_values(toks, i + 1, sub, pos.push(vals[0]), o, rest, trailing);
        assert(pos.push(vals[0]) + rest =~= pos + vals);
    }
}

/// The positional part of a command line: every value of the subcommand,
/// after `--` when `dashes`.
proof fn lemma_values_spelled(
    toks: Seq<Seq<char>>,
    i: int,
    sub: Subcommand,
    o: ParsedOptions<Seq<char>, Seq<ModifierChoice>>,
    vals: Seq<ArgValue<Seq<char>>>,
    vtoks: Seq<Seq<char>>,
    dashes: bool,
)
    requires
        0 <= i <= toks.len(),
        toks.subrange(i, toks.len() as int) == dash_part(vtoks, dashes) + vtoks,
        vals.len() == vtoks.len(),
        vals.len() == positional_kinds(sub).len(),
        forall|j: int|
            0 <= j < vals.len() ==> parse_value(positional_kinds(sub)[j], #[trigger] vtoks[j]) == Some(vals[j]),
        !dashes ==> forall|j: int| 0 <= j < vtoks.len() ==> !is_flag(#[trigger] vtoks[j]),
    ensures
        sub_walk(toks, i, sub, Seq::empty(), o, false) == finish_command(sub, vals, o),
{
    let e = Seq::<ArgValue<Seq<char>>>::empty();
    let d = dash_part(vtoks, dashes).len() as int;
    assert(toks.subrange(i, toks.len() as int).len() == toks.len() - i);
    assert((dash_part(vtoks, dashes) + vtoks).len() == d + vtoks.len());
    assert(toks.len() == i + d + vtoks.len());
    assert forall|j: int| 0 <= j < vtoks.len() implies #[trigger] toks[(i + d) + j] == vtoks[j] by {
        assert(toks.subrange(i, toks.len() as int)[d + j] == toks[i + (d + j)]);
        assert((dash_part(vtoks, dashes) + vtoks)[d + j] == vtoks[j]);
    }
    assert forall|j: int|
        0 <= j < vals.len() implies parse_value(positional_kinds(sub)[e.len() + j], #[trigger] toks[(i + d) + j])
        == Some(vals[j]) by {
        assert(toks[(i + d) + j] == vtoks[j]);
    }
    if d == 1 {
        assert(toks[i] == toks.subrange(i, toks.len() as int)[0]);
        assert(toks[i] == "--"@);
        lemma_values(toks, i + 1, sub, e, o, vals, true);
    } else {
        if !dashes {
            assert forall|j: int| 0 <= j < vals.len() implies !is_flag(#[trigger] toks[(i + d) + j]) by {
                assert(toks[(i + d) + j] == vtoks[j]);
            }
        }
        lemma_values(toks, i, sub, e, o, vals, vtoks.len() == 0 || dashes);
    }
    assert(e + vals =~= vals);
}

/// An option and its value set that option, and the walk goes on after them.
proof fn lemma_option_spelled(
    toks: Seq<Seq<char>>,
    i: int,
    sub: Subcommand,
    pos: Seq<ArgValue<Seq<char>>>,
    o: ParsedOptions<Seq<char>, Seq<ModifierChoice>>,
    name: Seq<char>,
    v: Seq<char>,
    kind: OptionKind,
    o2: ParsedOptions<Seq<char>, Seq<ModifierChoice>>,
    joined: bool,
)
    requires
        0 <= i,
        i + option_tokens(name, v, joined).len() as int <= toks.len(),
        toks.subrange(i, i + option_tokens(name, v, joined).len() as int) == option_tokens(name, v, joined),
        name == "search"@ || name == "output"@ || name == "button"@ || name == "axis"@ || name == "mod"@,
        option_named(sub, name) == Some(kind),
        !option_given(o, kind),
        with_option(o, kind, v) == Some(o2),
        !joined ==> !is_flag(v),
    ensures
        sub_walk(toks, i, sub, pos, o, false) == sub_walk(
            toks,
            i + option_tokens(name, v, joined).len() as int,
            sub,
            pos,
            o2,
            false,
        ),
{
    lemma_words();
    assert(name.len() > 0);
    assert(forall|j: int| 0 <= j < name.len() ==> name[j] != '=');
    assert(name != "help"@);
    let opts = option_tokens(name, v, joined);
    assert(toks[i] == toks.subrange(i, i + opts.len() as int)[0]);
    let t = toks[i];
    assert(t.len() > 2);
    assert(t != "--"@);
    assert(t[0] == '-' && t[1] == '-');
    let body = t.skip(2);
    if joined {
        assert(body =~= name + "="@ + v);
        lemma_first_eq(body, 0, name.len() as int);
        assert(body.take(name.len() as int) =~= name);
        assert(body.skip(name.len() as int + 1) =~= v);
    } else {
        assert(body =~= name);
        lemma_first_eq(body, 0, name.len() as int);
        assert(body.take(name.len() as int) =~= name);
        assert(toks[i + 1] == toks.subrange(i, i + opts.len() as int)[1]);
    }
}

/// Each subcommand's name names it, and reads as neither an option nor `--`.
proof fn lemma_subcommand_name(sub: Subcommand)
    ensures
        subcommand_named(subcommand_name(sub)) == Some(sub),
        subcommand_name(sub).len() >= 4,
        subcommand_name(sub)[0] != '-',
{
    lemma_words();
    match sub {
        Subcommand::ListWindows => {
            assert(subcommand_named(subcommand_name(sub)) == Some(sub));
        },
        Subcommand::WindowInfo => {
            assert(subcommand_named(subcommand_name(sub)) == Some(sub));
        },
        Subcommand::WindowAtPoint => {
            assert(subcommand_named(subcommand_name(sub)) == Some(sub));
        },
        Subcommand::CursorPosition => {
            assert(subcommand_named(subcommand_name(sub)) == Some(sub));
        },
        Subcommand::Focus => {
            assert(subcommand_named(subcommand_name(sub)) == Some(sub));
        },
        Subcommand::Move => {
            assert(subcommand_named(subcommand_name(sub)) == Some(sub));
        },
        Subcommand::Resize => {
            assert(subcommand_named(subcommand_name(sub)) == Some(sub));
        },
        Subcommand::AlwaysOnTop => {
            assert(subcommand_named(subcommand_name(sub)) == Some(sub));
        },
        Subcommand::CaptureScreen => {
            assert(subcommand_named(subcommand_name(sub)) == Some(sub));
        },
        Subcommand::CaptureWindow => {
            assert(subcommand_named(subcommand_name(sub)) == Some(sub));
        },
        Subcommand::SendText => {
            assert(subcommand_named(subcommand_name(sub)) == Some(sub));
        },
        Subcommand::MoveMouse => {
            assert("move-mouse"@.len() == 10);
            assert("move-mouse"@ != "send-text"@);
            assert("move-mouse"@ != "capture-window"@);
            assert(subcommand_named(subcommand_name(sub)) == Some(sub));
        },
        Subcommand::Click => {
            assert(subcommand_named(subcommand_name(sub)) == Some(sub));
        },
        Subcommand::MouseDown => {
            assert(subcommand_named(subcommand_name(sub)) == Some(sub));
        },
        Subcommand::MouseUp => {
            assert(subcommand_named(subcommand_name(sub)) == Some(sub));
        },
        Subcommand::Drag => {
            assert(subcommand_named(subcommand_name(sub)) == Some(sub));
        },
        Subcommand::Scroll => {
            assert(subcommand_named(subcommand_name(sub)) == Some(sub));
        },
        Subcommand::KeyDown => {
            assert(subcommand_named(subcommand_name(sub)) == Some(sub));
        },
        Subcommand::KeyUp => {
            assert(subcommand_named(subcommand_name(sub)) == Some(sub));
        },
        Subcommand::KeyTap => {
            assert(subcommand_named(subcommand_name(sub)) == Some(sub));
        },
        Subcommand::CheckPermissions => {
            assert(subcommand_named(subcommand_name(sub)) == Some(sub));
        },
        Subcommand::Version => {
            assert(subcommand_named(subcommand_name(sub)) == Some(sub));
        },
    }
}

/// `--cli` then a subcommand's name: the rest is that subcommand's arguments.
proof fn lemma_cli_prefix(toks: Seq<Seq<char>>, sub: Subcommand)
    requires
        toks.len() >= 3,
        toks[1] == "--cli"@,
        toks[2] == subcommand_name(sub),
    ensures
        parse_command_line(toks) == match sub_walk(toks, 3, sub, Seq::empty(), no_options(), false) {
            Ok(c) => Ok(CliArgs { cli: true, command: Some(c) }),
            Err(e) => Err(e),
        },
{
    lemma_words();
    lemma_subcommand_name(sub);
    let t = toks[1];
    let body = t.skip(2);
    assert(body =~= "cli"@);
    lemma_first_eq(body, 0, 3);
    assert(body.take(3) =~= "cli"@);
    assert(toks[2] != "--"@);
    assert(top_walk(toks, 1, false) == top_walk(toks, 2, true));
}

/// `--mod` options, one per modifier, add the modifiers in order.
proof fn lemma_mod_options(
    toks: Seq<Seq<char>>,
    i: int,
    pos: Seq<ArgValue<Seq<char>>>,
    o: ParsedOptions<Seq<char>, Seq<ModifierChoice>>,
    ms: Seq<ModifierChoice>,
    joined: bool,
)
    requires
        0 <= i,
        i + mod_options(ms, joined).len() as int <= toks.len(),
        toks.subrange(i, i + mod_options(ms, joined).len() as int) == mod_options(ms, joined),
    ensures
        sub_walk(toks, i, Subcommand::KeyTap, pos, o, false) == sub_walk(
            toks,
            i + mod_options(ms, joined).len() as int,
            Subcommand::KeyTap,
            pos,
            ParsedOptions { mods: o.mods + ms, ..o },
            false,
        ),
    decreases ms.len(),
{
    lemma_words();
    if ms.len() == 0 {
        assert(o.mods + ms =~= o.mods);
    } else {
        let m = ms[0];
        let first = option_tokens("mod"@, modifier_word(m), joined);
        let rest = mod_options(ms.drop_first(), joined);
        let all = mod_options(ms, joined);
        assert(all == first + rest);
        let n = first.len() as int;
        assert(toks.subrange(i, i + n) =~= first) by {
            assert forall|j: int| 0 <= j < n implies toks.subrange(i, i + n)[j] == first[j] by {
                assert(toks.subrange(i, i + all.len() as int)[j] == all[j]);
            }
        }
        assert(toks.subrange(i + n, i + n + rest.len() as int) =~= rest) by {
            assert forall|j: int| 0 <= j < rest.len() implies toks.subrange(i + n, i + n + rest.len() as int)[j]
                == rest[j] by {
                assert(toks.subrange(i, i + all.len() as int)[n + j] == all[n + j]);
            }
        }
        let o2 = ParsedOptions { mods: o.mods.push(m), ..o };
        assert(with_option(o, OptionKind::Mod, modifier_word(m)) == Some(o2));
        lemma_option_spelled(
            toks,
            i,
            Subcommand::KeyTap,
            pos,
            o,
            "mod"@,
            modifier_word(m),
            OptionKind::Mod,
            o2,
            joined,
        );
        lemma_mod_options(toks, i + n, pos, o2, ms.drop_first(), joined);
        assert(o2.mods + ms.drop_first() =~= o.mods + ms);
    }
}

/// The options once the button option, if written, is read.
pub open spec fn options_with_button(b: ButtonChoice, explicit: bool) -> ParsedOptions<Seq<char>, Seq<ModifierChoice>> {
    ParsedOptions { button: if !explicit && b == ButtonChoice::Left { None } else { Some(b) }, ..no_options() }
}

/// The options once the axis option, if written, is read.
pub open spec fn options_with_axis(a: ScrollAxisChoice, explicit: bool) -> ParsedOptions<Seq<char>, Seq<ModifierChoice>> {
    ParsedOptions { axis: if !explicit && a == ScrollAxisChoice::Vertical { None } else { Some(a) }, ..no_options() }
}

proof fn lemma_button_part(toks: Seq<Seq<char>>, sub: Subcommand, b: ButtonChoice, explicit: bool, joined: bool)
    requires
        sub == Subcommand::Click || sub == Subcommand::MouseDown || sub == Subcommand::MouseUp || sub
            == Subcommand::Drag,
        3 + button_options(b, explicit, joined).len() as int <= toks.len(),
        toks.subrange(3, 3 + button_options(b, explicit, joined).len() as int) == button_options(b, explicit, joined),
    ensures
        sub_walk(toks, 3, sub, Seq::empty(), no_options(), false) == sub_walk(
            toks,
            3 + button_options(b, explicit, joined).len() as int,
            sub,
            Seq::empty(),
            options_with_button(b, explicit),
            false,
        ),
{
    lemma_words();
    if !(!explicit && b == ButtonChoice::Left) {
        let o2 = options_with_button(b, explicit);
        assert(with_option(no_options(), OptionKind::Button, button_word(b)) == Some(o2));
        lemma_option_spelled(
            toks,
            3,
            sub,
            Seq::empty(),
            no_options(),
            "button"@,
            button_word(b),
            OptionKind::Button,
            o2,
            joined,
        );
    } else {
        assert(options_with_button(b, explicit) == no_options());
    }
}

proof fn lemma_axis_part(toks: Seq<Seq<char>>, a: ScrollAxisChoice, explicit: bool, joined: bool)
    requires
        3 + axis_options(a, explicit, joined).len() as int <= toks.len(),
        toks.subrange(3, 3 + axis_options(a, explicit, joined).len() as int) == axis_options(a, explicit, joined),
    ensures
        sub_walk(toks, 3, Subcommand::Scroll, Seq::empty(), no_options(), false) == sub_walk(
            toks,
            3 + axis_options(a, explicit, joined).len() as int,
            Subcommand::Scroll,
            Seq::empty(),
            options_with_axis(a, explicit),
            false,
        ),
{
    lemma_words();
    if !(!explicit && a == ScrollAxisChoice::Vertical) {
        let o2 = options_with_axis(a, explicit);
        assert(with_option(no_options(), OptionKind::Axis, axis_word(a)) == Some(o2));
        lemma_option_spelled(
            toks,
            3,
            Subcommand::Scroll,
            Seq::empty(),
            no_options(),
            "axis"@,
            axis_word(a),
            OptionKind::Axis,
            o2,
            joined,
        );
    } else {
        assert(options_with_axis(a, explicit) == no_options());
    }
}

/// A whole command line: once the options are read, the positional values
/// finish the command.
proof fn lemma_spelled_command(
    toks: Seq<Seq<char>>,
    sub: Subcommand,
    opts: Seq<Seq<char>>,
    o: ParsedOptions<Seq<char>, Seq<ModifierChoice>>,
    vals: Seq<ArgValue<Seq<char>>>,
    vtoks: Seq<Seq<char>>,
    dashes: bool,
)
    requires
        toks == seq!["agent-spy"@, "--cli"@] + invocation(subcommand_name(sub), opts, vtoks, dashes),
        sub_walk(toks, 3, sub, Seq::empty(), no_options(), false) == sub_walk(
            toks,
            3 + opts.len() as int,
            sub,
            Seq::empty(),
            o,
            false,
        ),
        vals.len() == vtoks.len(),
        vals.len() == positional_kinds(sub).len(),
        forall|j: int|
            0 <= j < vals.len() ==> parse_value(positional_kinds(sub)[j], #[trigger] vtoks[j]) == Some(vals[j]),
        !dashes ==> forall|j: int| 0 <= j < vtoks.len() ==> !is_flag(#[trigger] vtoks[j]),
    ensures
        parse_command_line(toks) == match finish_command(sub, vals, o) {
            Ok(c) => Ok(CliArgs { cli: true, command: Some(c) }),
            Err(e) => Err(e),
        },
{
    assert(toks[1] == "--cli"@);
    assert(toks[2] == subcommand_name(sub));
    lemma_cli_prefix(toks, sub);
    let i = 3 + opts.len() as int;
    assert(toks.subrange(i, toks.len() as int) =~= dash_part(vtoks, dashes) + vtoks);
    lemma_values_spelled(toks, i, sub, o, vals, vtoks, dashes);
}

spec fn reads_back(
    c: CliCommand<Seq<char>, Seq<ModifierChoice>>,
    explicit: bool,
    joined: bool,
    dashes: bool,
) -> bool {
    parse_command_line(seq!["agent-spy"@, "--cli"@] + command_line_for(c, explicit, joined, dashes)) == Ok::<
        CliArgs<Seq<char>, Seq<ModifierChoice>>,
        CliError<Seq<char>>,
    >(CliArgs { cli: true, command: Some(c) })
}

proof fn lemma_read_back_list_windows(
    c: CliCommand<Seq<char>, Seq<ModifierChoice>>,
    explicit: bool,
    joined: bool,
    dashes: bool,
)
    requires
        c is ListWindows,
        spelling_reads_back(c, joined, dashes),
    ensures
        reads_back(c, explicit, joined, dashes),
{
    let toks = seq!["agent-spy"@, "--cli"@] + command_line_for(c, explicit, joined, dashes);
    if let CliCommand::ListWindows { search } = c {
        match search {
            None => {
                lemma_spelled_command(toks, Subcommand::ListWindows, seq![], no_options(), seq![], seq![], dashes);
            },
            Some(q) => {
                lemma_words();
                let o2 = ParsedOptions { search: Some(q), ..no_options() };
                let opts = option_tokens("search"@, q, joined);
                assert(toks.subrange(3, 3 + opts.len() as int) =~= opts);
                lemma_option_spelled(
                    toks,
                    3,
                    Subcommand::ListWindows,
                    Seq::empty(),
                    no_options(),
                    "search"@,
                    q,
                    OptionKind::Search,
                    o2,
                    joined,
                );
                lemma_spelled_command(toks, Subcommand::ListWindows, opts, o2, seq![], seq![], dashes);
            },
        }
    }
}

proof fn lemma_read_back_window_info(
    c: CliCommand<Seq<char>, Seq<ModifierChoice>>,
    explicit: bool,
    joined: bool,
    dashes: bool,
)
    requires
        c is WindowInfo,
        spelling_reads_back(c, joined, dashes),
    ensures
        reads_back(c, explicit, joined, dashes),
{
    let toks = seq!["agent-spy"@, "--cli"@] + command_line_for(c, explicit, joined, dashes);
    if let CliCommand::WindowInfo { id } = c {
        lemma_value_tokens(id, 0, 0, OnOff::On, Seq::empty());
        let vals = seq![ArgValue::Id(id)];
        let vtoks = seq![decimal(id as int)];
        lemma_spelled_command(toks, Subcommand::WindowInfo, seq![], no_options(), vals, vtoks, dashes);
    }
}

proof fn lemma_read_back_window_at_point(
    c: CliCommand<Seq<char>, Seq<ModifierChoice>>,
    explicit: bool,
    joined: bool,
    dashes: bool,
)
    requires
        c is WindowAtPoint,
        spelling_reads_back(c, joined, dashes),
    ensures
        reads_back(c, explicit, joined, dashes),
{
    let toks = seq!["agent-spy"@, "--cli"@] + command_line_for(c, explicit, joined, dashes);
    if let CliCommand::WindowAtPoint { x, y } = c {
        lemma_value_tokens(0, x, 0, OnOff::On, Seq::empty());
        lemma_value_tokens(0, y, 0, OnOff::On, Seq::empty());
        let vals = seq![ArgValue::Coord(x), ArgValue::Coord(y)];
        let vtoks = seq![decimal(x as int), decimal(y as int)];
        lemma_spelled_command(toks, Subcommand::WindowAtPoint, seq![], no_options(), vals, vtoks, dashes);
    }
}

proof fn lemma_read_back_cursor_position(
    c: CliCommand<Seq<char>, Seq<ModifierChoice>>,
    explicit: bool,
    joined: bool,
    dashes: bool,
)
    requires
        c is CursorPosition,
        spelling_reads_back(c, joined, dashes),
    ensures
        reads_back(c, explicit, joined, dashes),
{
    let toks = seq!["agent-spy"@, "--cli"@] + command_line_for(c, explicit, joined, dashes);
    if let CliCommand::CursorPosition = c {
        let vals = seq![];
        let vtoks = seq![];
        lemma_spelled_command(toks, Subcommand::CursorPosition, seq![], no_options(), vals, vtoks, dashes);
    }
}

proof fn lemma_read_back_focus(
    c: CliCommand<Seq<char>, Seq<ModifierChoice>>,
    explicit: bool,
    joined: bool,
    dashes: bool,
)
    requires
        c is Focus,
        spelling_reads_back(c, joined, dashes),
    ensures
        reads_back(c, explicit, joined, dashes),
{
    let toks = seq!["agent-spy"@, "--cli"@] + command_line_for(c, explicit, joined, dashes);
    if let CliCommand::Focus { id } = c {
        lemma_value_tokens(id, 0, 0, OnOff::On, Seq::empty());
        let vals = seq![ArgValue::Id(id)];
        let vtoks = seq![decimal(id as int)];
        lemma_spelled_command(toks, Subcommand::Focus, seq![], no_options(), vals, vtoks, dashes);
    }
}

proof fn lemma_read_back_move(
    c: CliCommand<Seq<char>, Seq<ModifierChoice>>,
    explicit: bool,
    joined: bool,
    dashes: bool,
)
    requires
        c is Move,
        spelling_reads_back(c, joined, dashes),
    ensures
        reads_back(c, explicit, joined, dashes),
{
    let toks = seq!["agent-spy"@, "--cli"@] + command_line_for(c, explicit, joined, dashes);
    if let CliCommand::Move { id, x, y } = c {
        lemma_value_tokens(id, x, 0, OnOff::On, Seq::empty());
        lemma_value_tokens(0, y, 0, OnOff::On, Seq::empty());
        let vals = seq![ArgValue::Id(id), ArgValue::Coord(x), ArgValue::Coord(y)];
        let vtoks = seq![decimal(id as int), decimal(x as int), decimal(y as int)];
        lemma_spelled_command(toks, Subcommand::Move, seq![], no_options(), vals, vtoks, dashes);
    }
}

proof fn lemma_read_back_resize(
    c: CliCommand<Seq<char>, Seq<ModifierChoice>>,
    explicit: bool,
    joined: bool,
    dashes: bool,
)
    requires
        c is Resize,
        spelling_reads_back(c, joined, dashes),
    ensures
        reads_back(c, explicit, joined, dashes),
{
    let toks = seq!["agent-spy"@, "--cli"@] + command_line_for(c, explicit, joined, dashes);
    if let CliCommand::Resize { id, width, height } = c {
        lemma_value_tokens(id, 0, width, OnOff::On, Seq::empty());
        lemma_value_tokens(0, 0, height, OnOff::On, Seq::empty());
        let vals = seq![ArgValue::Id(id), ArgValue::Size(width), ArgValue::Size(height)];
        let vtoks = seq![
            decimal(id as int),
            decimal(width as int),
            decimal(height as int),
        ];
        lemma_spelled_command(toks, Subcommand::Resize, seq![], no_options(), vals, vtoks, dashes);
    }
}

proof fn lemma_read_back_always_on_top(
    c: CliCommand<Seq<char>, Seq<ModifierChoice>>,
    explicit: bool,
    joined: bool,
    dashes: bool,
)
    requires
        c is AlwaysOnTop,
        spelling_reads_back(c, joined, dashes),
    ensures
        reads_back(c, explicit, joined, dashes),
{
    let toks = seq!["agent-spy"@, "--cli"@] + command_line_for(c, explicit, joined, dashes);
    if let CliCommand::AlwaysOnTop { id, state } = c {
        lemma_value_tokens(id, 0, 0, state, Seq::empty());
        let vals = seq![ArgValue::Id(id), ArgValue::State(state)];
        let vtoks = seq![decimal(id as int), state_word(state)];
        lemma_spelled_command(toks, Subcommand::AlwaysOnTop, seq![], no_options(), vals, vtoks, dashes);
    }
}

#[verifier::rlimit(100)]
proof fn lemma_read_back_capture_screen(
    c: CliCommand<Seq<char>, Seq<ModifierChoice>>,
    explicit: bool,
    joined: bool,
    dashes: bool,
)
    requires
        c is CaptureScreen,
        spelling_reads_back(c, joined, dashes),
    ensures
        reads_back(c, explicit, joined, dashes),
{
    let toks = seq!["agent-spy"@, "--cli"@] + command_line_for(c, explicit, joined, dashes);
    if let CliCommand::CaptureScreen { output } = c {
        let o2 = ParsedOptions { output: Some(output), ..no_options() };
        let opts = option_tokens("output"@, output, joined);
        assert(toks.subrange(3, 3 + opts.len() as int) =~= opts);
        lemma_option_spelled(
            toks,
            3,
            Subcommand::CaptureScreen,
            Seq::empty(),
            no_options(),
            "output"@,
            output,
            OptionKind::Output,
            o2,
            joined,
        );
        let vals = seq![];
        let vtoks = seq![];
        lemma_spelled_command(toks, Subcommand::CaptureScreen, opts, o2, vals, vtoks, dashes);
    }
}

#[verifier::rlimit(100)]
proof fn lemma_read_back_capture_window(
    c: CliCommand<Seq<char>, Seq<ModifierChoice>>,
    explicit: bool,
    joined: bool,
    dashes: bool,
)
    requires
        c is CaptureWindow,
        spelling_reads_back(c, joined, dashes),
    ensures
        reads_back(c, explicit, joined, dashes),
{
    let toks = seq!["agent-spy"@, "--cli"@] + command_line_for(c, explicit, joined, dashes);
    if let CliCommand::CaptureWindow { id, output } = c {
        let o2 = ParsedOptions { output: Some(output), ..no_options() };
        let opts = option_tokens("output"@, output, joined);
        assert(toks.subrange(3, 3 + opts.len() as int) =~= opts);
        lemma_option_spelled(
            toks,
            3,
            Subcommand::CaptureWindow,
            Seq::empty(),
            no_options(),
            "output"@,
            output,
            OptionKind::Output,
            o2,
            joined,
        );
        lemma_value_tokens(id, 0, 0, OnOff::On, Seq::empty());
        let vals = seq![ArgValue::Id(id)];
        let vtoks = seq![decimal(id as int)];
        lemma_spelled_command(toks, Subcommand::CaptureWindow, opts, o2, vals, vtoks, dashes);
    }
}

proof fn lemma_read_back_send_text(
    c: CliCommand<Seq<char>, Seq<ModifierChoice>>,
    explicit: bool,
    joined: bool,
    dashes: bool,
)
    requires
        c is SendText,
        spelling_reads_back(c, joined, dashes),
    ensures
        reads_back(c, explicit, joined, dashes),
{
    let toks = seq!["agent-spy"@, "--cli"@] + command_line_for(c, explicit, joined, dashes);
    if let CliCommand::SendText { text } = c {
        lemma_value_tokens(0, 0, 0, OnOff::On, text);
        let vals = seq![ArgValue::Text(text)];
        let vtoks = seq![text];
        lemma_spelled_command(toks, Subcommand::SendText, seq![], no_options(), vals, vtoks, dashes);
    }
}

proof fn lemma_read_back_move_mouse(
    c: CliCommand<Seq<char>, Seq<ModifierChoice>>,
    explicit: bool,
    joined: bool,
    dashes: bool,
)
    requires
        c is MoveMouse,
        spelling_reads_back(c, joined, dashes),
    ensures
        reads_back(c, explicit, joined, dashes),
{
    let toks = seq!["agent-spy"@, "--cli"@] + command_line_for(c, explicit, joined, dashes);
    if let CliCommand::MoveMouse { x, y } = c {
        lemma_value_tokens(0, x, 0, OnOff::On, Seq::empty());
        lemma_value_tokens(0, y, 0, OnOff::On, Seq::empty());
        let vals = seq![ArgValue::Coord(x), ArgValue::Coord(y)];
        let vtoks = seq![decimal(x as int), decimal(y as int)];
        lemma_spelled_command(toks, Subcommand::MoveMouse, seq![], no_options(), vals, vtoks, dashes);
    }
}

#[verifier::rlimit(100)]
proof fn lemma_read_back_click(
    c: CliCommand<Seq<char>, Seq<ModifierChoice>>,
    explicit: bool,
    joined: bool,
    dashes: bool,
)
    requires
        c is Click,
        spelling_reads_back(c, joined, dashes),
    ensures
        reads_back(c, explicit, joined, dashes),
{
    let toks = seq!["agent-spy"@, "--cli"@] + command_line_for(c, explicit, joined, dashes);
    if let CliCommand::Click { x, y, button } = c {
        let opts = button_options(button, explicit, joined);
        assert(toks.subrange(3, 3 + opts.len() as int) =~= opts);
        lemma_button_part(toks, Subcommand::Click, button, explicit, joined);
        lemma_value_tokens(0, x, 0, OnOff::On, Seq::empty());
        lemma_value_tokens(0, y, 0, OnOff::On, Seq::empty());
        let vals = seq![ArgValue::Coord(x), ArgValue::Coord(y)];
        let vtoks = seq![decimal(x as int), decimal(y as int)];
        lemma_spelled_command(toks, Subcommand::Click, opts, options_with_button(button, explicit), vals, vtoks, dashes);
    }
}

#[verifier::rlimit(100)]
proof fn lemma_read_back_mouse_down(
    c: CliCommand<Seq<char>, Seq<ModifierChoice>>,
    explicit: bool,
    joined: bool,
    dashes: bool,
)
    requires
        c is MouseDown,
        spelling_reads_back(c, joined, dashes),
    ensures
        reads_back(c, explicit, joined, dashes),
{
    let toks = seq!["agent-spy"@, "--cli"@] + command_line_for(c, explicit, joined, dashes);
    if let CliCommand::MouseDown { x, y, button } = c {
        let opts = button_options(button, explicit, joined);
        assert(toks.subrange(3, 3 + opts.len() as int) =~= opts);
        lemma_button_part(toks, Subcommand::MouseDown, button, explicit, joined);
        lemma_value_tokens(0, x, 0, OnOff::On, Seq::empty());
        lemma_value_tokens(0, y, 0, OnOff::On, Seq::empty());
        let vals = seq![ArgValue::Coord(x), ArgValue::Coord(y)];
        let vtoks = seq![decimal(x as int), decimal(y as int)];
        lemma_spelled_command(toks, Subcommand::MouseDown, opts, options_with_button(button, explicit), vals, vtoks, dashes);
    }
}

#[verifier::rlimit(100)]
proof fn lemma_read_back_mouse_up(
    c: CliCommand<Seq<char>, Seq<ModifierChoice>>,
    explicit: bool,
    joined: bool,
    dashes: bool,
)
    requires
        c is MouseUp,
        spelling_reads_back(c, joined, dashes),
    ensures
        reads_back(c, explicit, joined, dashes),
{
    let toks = seq!["agent-spy"@, "--cli"@] + command_line_for(c, explicit, joined, dashes);
    if let CliCommand::MouseUp { x, y, button } = c {
        let opts = button_options(button, explicit, joined);
        assert(toks.subrange(3, 3 + opts.len() as int) =~= opts);
        lemma_button_part(toks, Subcommand::MouseUp, button, explicit, joined);
        lemma_value_tokens(0, x, 0, OnOff::On, Seq::empty());
        lemma_value_tokens(0, y, 0, OnOff::On, Seq::empty());
        let vals = seq![ArgValue::Coord(x), ArgValue::Coord(y)];
        let vtoks = seq![decimal(x as int), decimal(y as int)];
        lemma_spelled_command(toks, Subcommand::MouseUp, opts, options_with_button(button, explicit), vals, vtoks, dashes);
    }
}

#[verifier::rlimit(100)]
proof fn lemma_read_back_drag(
    c: CliCommand<Seq<char>, Seq<ModifierChoice>>,
    explicit: bool,
    joined: bool,
    dashes: bool,
)
    requires
        c is Drag,
        spelling_reads_back(c, joined, dashes),
    ensures
        reads_back(c, explicit, joined, dashes),
{
    let toks = seq!["agent-spy"@, "--cli"@] + command_line_for(c, explicit, joined, dashes);
    if let CliCommand::Drag { start_x, start_y, end_x, end_y, button } = c {
        let opts = button_options(button, explicit, joined);
        assert(toks.subrange(3, 3 + opts.len() as int) =~= opts);
        lemma_button_part(toks, Subcommand::Drag, button, explicit, joined);
        lemma_value_tokens(0, start_x, 0, OnOff::On, Seq::empty());
        lemma_value_tokens(0, start_y, 0, OnOff::On, Seq::empty());
        lemma_value_tokens(0, end_x, 0, OnOff::On, Seq::empty());
        lemma_value_tokens(0, end_y, 0, OnOff::On, Seq::empty());
        let vals = seq![
            ArgValue::Coord(start_x),
            ArgValue::Coord(start_y),
            ArgValue::Coord(end_x),
            ArgValue::Coord(end_y),
        ];
        let vtoks = seq![
            decimal(start_x as int),
            decimal(start_y as int),
            decimal(end_x as int),
            decimal(end_y as int),
        ];
        lemma_spelled_command(toks, Subcommand::Drag, opts, options_with_button(button, explicit), vals, vtoks, dashes);
    }
}

#[verifier::rlimit(100)]
proof fn lemma_read_back_scroll(
    c: CliCommand<Seq<char>, Seq<ModifierChoice>>,
    explicit: bool,
    joined: bool,
    dashes: bool,
)
    requires
        c is Scroll,
        spelling_reads_back(c, joined, dashes),
    ensures
        reads_back(c, explicit, joined, dashes),
{
    let toks = seq!["agent-spy"@, "--cli"@] + command_line_for(c, explicit, joined, dashes);
    if let CliCommand::Scroll { amount, axis } = c {
        let opts = axis_options(axis, explicit, joined);
        assert(toks.subrange(3, 3 + opts.len() as int) =~= opts);
        lemma_axis_part(toks, axis, explicit, joined);
        lemma_value_tokens(0, amount, 0, OnOff::On, Seq::empty());
        let vals = seq![ArgValue::Coord(amount)];
        let vtoks = seq![decimal(amount as int)];
        lemma_spelled_command(toks, Subcommand::Scroll, opts, options_with_axis(axis, explicit), vals, vtoks, dashes);
    }
}

proof fn lemma_read_back_key_down(
    c: CliCommand<Seq<char>, Seq<ModifierChoice>>,
    explicit: bool,
    joined: bool,
    dashes: bool,
)
    requires
        c is KeyDown,
        spelling_reads_back(c, joined, dashes),
    ensures
        reads_back(c, explicit, joined, dashes),
{
    let toks = seq!["agent-spy"@, "--cli"@] + command_line_for(c, explicit, joined, dashes);
    if let CliCommand::KeyDown { key } = c {
        lemma_value_tokens(0, 0, 0, OnOff::On, key);
        let vals = seq![ArgValue::Text(key)];
        let vtoks = seq![key];
        lemma_spelled_command(toks, Subcommand::KeyDown, seq![], no_options(), vals, vtoks, dashes);
    }
}

proof fn lemma_read_back_key_up(
    c: CliCommand<Seq<char>, Seq<ModifierChoice>>,
    explicit: bool,
    joined: bool,
    dashes: bool,
)
    requires
        c is KeyUp,
        spelling_reads_back(c, joined, dashes),
    ensures
        reads_back(c, explicit, joined, dashes),
{
    let toks = seq!["agent-spy"@, "--cli"@] + command_line_for(c, explicit, joined, dashes);
    if let CliCommand::KeyUp { key } = c {
        lemma_value_tokens(0, 0, 0, OnOff::On, key);
        let vals = seq![ArgValue::Text(key)];
        let vtoks = seq![key];
        lemma_spelled_command(toks, Subcommand::KeyUp, seq![], no_options(), vals, vtoks, dashes);
    }
}

#[verifier::rlimit(100)]
proof fn lemma_read_back_key_tap(
    c: CliCommand<Seq<char>, Seq<ModifierChoice>>,
    explicit: bool,
    joined: bool,
    dashes: bool,
)
    requires
        c is KeyTap,
        spelling_reads_back(c, joined, dashes),
    ensures
        reads_back(c, explicit, joined, dashes),
{
    let toks = seq!["agent-spy"@, "--cli"@] + command_line_for(c, explicit, joined, dashes);
    if let CliCommand::KeyTap { key, modifiers } = c {
        let opts = mod_options(modifiers, joined);
        assert(toks.subrange(3, 3 + opts.len() as int) =~= opts);
        lemma_mod_options(toks, 3, Seq::empty(), no_options(), modifiers, joined);
        let o2 = ParsedOptions { mods: no_options().mods + modifiers, ..no_options() };
        assert(no_options().mods + modifiers =~= modifiers);
        lemma_value_tokens(0, 0, 0, OnOff::On, key);
        let vals = seq![ArgValue::Text(key)];
        let vtoks = seq![key];
        lemma_spelled_command(toks, Subcommand::KeyTap, opts, o2, vals, vtoks, dashes);
    }
}

proof fn lemma_read_back_check_permissions(
    c: CliCommand<Seq<char>, Seq<ModifierChoice>>,
    explicit: bool,
    joined: bool,
    dashes: bool,
)
    requires
        c is CheckPermissions,
        spelling_reads_back(c, joined, dashes),
    ensures
        reads_back(c, explicit, joined, dashes),
{
    let toks = seq!["agent-spy"@, "--cli"@] + command_line_for(c, explicit, joined, dashes);
    if let CliCommand::CheckPermissions = c {
        let vals = seq![];
        let vtoks = seq![];
        lemma_spelled_command(toks, Subcommand::CheckPermissions, seq![], no_options(), vals, vtoks, dashes);
    }
}

proof fn lemma_read_back_version(
    c: CliCommand<Seq<char>, Seq<ModifierChoice>>,
    explicit: bool,
    joined: bool,
    dashes: bool,
)
    requires
        c is Version,
        spelling_reads_back(c, joined, dashes),
    ensures
        reads_back(c, explicit, joined, dashes),
{
    let toks = seq!["agent-spy"@, "--cli"@] + command_line_for(c, explicit, joined, dashes);
    if let CliCommand::Version = c {
        let vals = seq![];
        let vtoks = seq![];
        lemma_spelled_command(toks, Subcommand::Version, seq![], no_options(), vals, vtoks, dashes);
    }
}

/// A subcommand's arguments are read the same wherever they start.
proof fn lemma_sub_walk_shift(
    t1: Seq<Seq<char>>,
    i1: int,
    t2: Seq<Seq<char>>,
    i2: int,
    sub: Subcommand,
    pos: Seq<ArgValue<Seq<char>>>,
    o: ParsedOptions<Seq<char>, Seq<ModifierChoice>>,
    trailing: bool,
)
    requires
        0 <= i1 <= t1.len(),
        0 <= i2 <= t2.len(),
        t1.skip(i1) == t2.skip(i2),
    ensures
        sub_walk(t1, i1, sub, pos, o, trailing) == sub_walk(t2, i2, sub, pos, o, trailing),
    decreases t1.len() - i1,
{
    assert(t1.skip(i1).len() == t1.len() - i1);
    assert(t2.skip(i2).len() == t2.len() - i2);
    assert(t1.len() - i1 == t2.len() - i2);
    if i1 < t1.len() {
        assert(t1[i1] == t1.skip(i1)[0]);
        assert(t2[i2] == t2.skip(i2)[0]);
        assert(t1.skip(i1 + 1) =~= t2.skip(i2 + 1)) by {
            assert forall|j: int| 0 <= j < t1.skip(i1 + 1).len() implies #[trigger] t1.skip(i1 + 1)[j] == t2.skip(
                i2 + 1,
            )[j] by {
                assert(t1.skip(i1)[j + 1] == t2.skip(i2)[j + 1]);
            }
        }
        if i1 + 1 < t1.len() {
            assert(t1[i1 + 1] == t1.skip(i1)[1]);
            assert(t2[i2 + 1] == t2.skip(i2)[1]);
            assert(t1.skip(i1 + 2) =~= t2.skip(i2 + 2)) by {
                assert forall|j: int| 0 <= j < t1.skip(i1 + 2).len() implies #[trigger] t1.skip(i1 + 2)[j] == t2.skip(
                    i2 + 2,
                )[j] by {
                    assert(t1.skip(i1)[j + 2] == t2.skip(i2)[j + 2]);
                }
            }
        }
        let t = t1[i1];
        if !trailing && t == "--"@ {
            lemma_sub_walk_shift(t1, i1 + 1, t2, i2 + 1, sub, pos, o, true);
        } else if !trailing && t.len() >= 2 && t[0] == '-' && t[1] == '-' {
            let body = t.skip(2);
            let k = first_eq(body, 0);
            let name = body.take(k);
            if name != "help"@ {
                if let Some(kind) = option_named(sub, name) {
                    if !option_given(o, kind) {
                        if k < body.len() {
                            if let Some(o2) = with_option(o, kind, body.skip(k + 1)) {
                                lemma_sub_walk_shift(t1, i1 + 1, t2, i2 + 1, sub, pos, o2, trailing);
                            }
                        } else if i1 + 1 < t1.len() && !is_flag(t1[i1 + 1]) {
                            if let Some(o2) = with_option(o, kind, t1[i1 + 1]) {
                                lemma_sub_walk_shift(t1, i1 + 2, t2, i2 + 2, sub, pos, o2, trailing);
                            }
                        }
                    }
                }
            }
        } else if !trailing && is_flag(t) {
        } else if pos.len() < positional_kinds(sub).len() {
            if let Some(v) = parse_value(positional_kinds(sub)[pos.len() as int], t) {
                lemma_sub_walk_shift(t1, i1 + 1, t2, i2 + 1, sub, pos.push(v), o, trailing);
            }
        }
    }
}

/// `--cli` before the subcommand only marks the command line as one for the
/// command-line tool: the command read is the same as without it.
pub proof fn lemma_cli_flag_marks_only(rest: Seq<Seq<char>>, sub: Subcommand)
    requires
        rest.len() > 0,
        rest[0] == subcommand_name(sub),
    ensures
        parse_command_line(seq!["agent-spy"@, "--cli"@] + rest) == match parse_command_line(
            seq!["agent-spy"@] + rest,
        ) {
            Ok(a) => Ok(CliArgs { cli: true, command: a.command }),
            Err(e) => Err(e),
        },
{
    lemma_words();
    lemma_subcommand_name(sub);
    let with = seq!["agent-spy"@, "--cli"@] + rest;
    let without = seq!["agent-spy"@] + rest;
    lemma_cli_prefix(with, sub);
    assert(without[1] == subcommand_name(sub));
    assert(without[1] != "--"@);
    assert(top_walk(without, 1, false) == match sub_walk(without, 2, sub, Seq::empty(), no_options(), false) {
        Ok(c) => Ok(CliArgs { cli: false, command: Some(c) }),
        Err(e) => Err(e),
    });
    assert(with.skip(3) =~= without.skip(2));
    lemma_sub_walk_shift(with, 3, without, 2, sub, Seq::empty(), no_options(), false);
}

/// The parser reads back every command from the command line that asks for
/// it: each positional value lands in the field that the usage names at its
/// place, each option in its field, and a mouse button or scroll axis that is
/// not given is the left button or the vertical axis. This holds with options
/// joined to their values by `=` or not, with or without default options
/// written, and with or without `--` before the values.
pub proof fn lemma_command_line_read_back(
    c: CliCommand<Seq<char>, Seq<ModifierChoice>>,
    explicit: bool,
    joined: bool,
    dashes: bool,
)
    requires
        spelling_reads_back(c, joined, dashes),
    ensures
        parse_command_line(seq!["agent-spy"@, "--cli"@] + command_line_for(c, explicit, joined, dashes)) == Ok::<
            CliArgs<Seq<char>, Seq<ModifierChoice>>,
            CliError<Seq<char>>,
        >(CliArgs { cli: true, command: Some(c) }),
{
    match c {
        CliCommand::ListWindows { .. } => lemma_read_back_list_windows(c, explicit, joined, dashes),
        CliCommand::WindowInfo { .. } => lemma_read_back_window_info(c, explicit, joined, dashes),
        CliCommand::WindowAtPoint { .. } => lemma_read_back_window_at_point(c, explicit, joined, dashes),
        CliCommand::CursorPosition => lemma_read_back_cursor_position(c, explicit, joined, dashes),
        CliCommand::Focus { .. } => lemma_read_back_focus(c, explicit, joined, dashes),
        CliCommand::Move { .. } => lemma_read_back_move(c, explicit, joined, dashes),
        CliCommand::Resize { .. } => lemma_read_back_resize(c, explicit, joined, dashes),
        CliCommand::AlwaysOnTop { .. } => lemma_read_back_always_on_top(c, explicit, joined, dashes),
        CliCommand::CaptureScreen { .. } => lemma_read_back_capture_screen(c, explicit, joined, dashes),
        CliCommand::CaptureWindow { .. } => lemma_read_back_capture_window(c, explicit, joined, dashes),
        CliCommand::SendText { .. } => lemma_read_back_send_text(c, explicit, joined, dashes),
        CliCommand::MoveMouse { .. } => lemma_read_back_move_mouse(c, explicit, joined, dashes),
        CliCommand::Click { .. } => lemma_read_back_click(c, explicit, joined, dashes),
        CliCommand::MouseDown { .. } => lemma_read_back_mouse_down(c, explicit, joined, dashes),
        CliCommand::MouseUp { .. } => lemma_read_back_mouse_up(c, explicit, joined, dashes),
        CliCommand::Drag { .. } => lemma_read_back_drag(c, explicit, joined, dashes),
        CliCommand::Scroll { .. } => lemma_read_back_scroll(c, explicit, joined, dashes),
        CliCommand::KeyDown { .. } => lemma_read_back_key_down(c, explicit, joined, dashes),
        CliCommand::KeyUp { .. } => lemma_read_back_key_up(c, explicit, joined, dashes),
        CliCommand::KeyTap { .. } => lemma_read_back_key_tap(c, explicit, joined, dashes),
        CliCommand::CheckPermissions => lemma_read_back_check_permissions(c, explicit, joined, dashes),
        CliCommand::Version => lemma_read_back_version(c, explicit, joined, dashes),
    }
}

} // verus!
