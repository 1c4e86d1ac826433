//! Shortcuts on Windows: how they are written, and which keys fire them.

use super::lifecycle::{Exchange, Ready};
use super::lifecycle;
use crate::text;
use crate::text::{
    chars_of, lower_slice, parse_u32, spells, string_of, strip_prefix_slice, strip_suffix_slice,
    trim_end_slice, trim_slice,
};
use std::collections::HashSet;
use vstd::prelude::*;

verus! {

pub const VK_BACK: u32 = 0x08;

pub const VK_TAB: u32 = 0x09;

pub const VK_RETURN: u32 = 0x0d;

pub const VK_SHIFT: u32 = 0x10;

pub const VK_CONTROL: u32 = 0x11;

pub const VK_MENU: u32 = 0x12;

pub const VK_PAUSE: u32 = 0x13;

pub const VK_CAPITAL: u32 = 0x14;

pub const VK_ESCAPE: u32 = 0x1b;

pub const VK_SPACE: u32 = 0x20;

pub const VK_PRIOR: u32 = 0x21;

pub const VK_NEXT: u32 = 0x22;

pub const VK_END: u32 = 0x23;

pub const VK_HOME: u32 = 0x24;

pub const VK_LEFT: u32 = 0x25;

pub const VK_UP: u32 = 0x26;

pub const VK_RIGHT: u32 = 0x27;

pub const VK_DOWN: u32 = 0x28;

pub const VK_SNAPSHOT: u32 = 0x2c;

pub const VK_INSERT: u32 = 0x2d;

pub const VK_DELETE: u32 = 0x2e;

pub const VK_LWIN: u32 = 0x5b;

pub const VK_RWIN: u32 = 0x5c;

pub const VK_APPS: u32 = 0x5d;

pub const VK_NUMPAD0: u32 = 0x60;

pub const VK_MULTIPLY: u32 = 0x6a;

pub const VK_ADD: u32 = 0x6b;

pub const VK_SUBTRACT: u32 = 0x6d;

pub const VK_DECIMAL: u32 = 0x6e;

pub const VK_DIVIDE: u32 = 0x6f;

pub const VK_F1: u32 = 0x70;

pub const VK_NUMLOCK: u32 = 0x90;

pub const VK_SCROLL: u32 = 0x91;

pub const VK_LSHIFT: u32 = 0xa0;

pub const VK_RSHIFT: u32 = 0xa1;

pub const VK_LCONTROL: u32 = 0xa2;

pub const VK_RCONTROL: u32 = 0xa3;

pub const VK_LMENU: u32 = 0xa4;

pub const VK_RMENU: u32 = 0xa5;

pub const VK_OEM_1: u32 = 0xba;

pub const VK_OEM_PLUS: u32 = 0xbb;

pub const VK_OEM_COMMA: u32 = 0xbc;

pub const VK_OEM_MINUS: u32 = 0xbd;

pub const VK_OEM_PERIOD: u32 = 0xbe;

pub const VK_OEM_2: u32 = 0xbf;

pub const VK_OEM_3: u32 = 0xc0;

pub const VK_OEM_4: u32 = 0xdb;

pub const VK_OEM_5: u32 = 0xdc;

pub const VK_OEM_6: u32 = 0xdd;

pub const VK_OEM_7: u32 = 0xde;

/// The keys that a shortcut asks for: exactly these modifiers, and one key
/// more where `key` names it.
#[derive(Clone, Copy, Debug, PartialEq, Eq, Structural)]
pub struct ParsedShortcut {
    pub ctrl: bool,
    pub alt: bool,
    pub shift: bool,
    pub meta: bool,
    pub key: Option<u32>,
}

/// Whether a plus sign at `i` separates two parts of the shortcut `s`: one right
/// behind the word `numpad` names a key.
pub open spec fn separates(s: Seq<char>, i: int) -> bool {
    s[i] == '+' && text::lower(text::trim_end(s.take(i))) != "numpad"@
}

/// The first position from `from` on at which two parts of `s` are separated;
/// the length of `s` where there is none.
pub open spec fn first_separator(s: Seq<char>, from: int) -> int
    decreases s.len() - from,
{
    if from >= s.len() || separates(s, from) {
        from
    } else {
        first_separator(s, from + 1)
    }
}

/// The parts of a shortcut.
pub open spec fn split_parts(s: Seq<char>) -> Seq<Seq<char>>
    decreases s.len(),
{
    let i = first_separator(s, 0);
    if 0 <= i < s.len() {
        seq![s.take(i)] + split_parts(s.skip(i + 1))
    } else {
        seq![s]
    }
}

/// Splits a shortcut into its parts.
pub fn split_shortcut_parts<'a>(raw: &'a str) -> (r: Vec<&'a str>)
    ensures
        r@.map_values(|part: &str| part@) == split_parts(raw@),
{
    let chars = chars_of(raw);
    let mut parts: Vec<&'a str> = Vec::new();
    let mut start: usize = 0;
    let mut i: usize = 0;
    assert(raw@.skip(0) =~= raw@);
    assert(parts@.map_values(|part: &str| part@) + split_parts(raw@) =~= split_parts(raw@));
    while i < chars.len()
        invariant
            chars@ == raw@,
            start <= i <= chars.len(),
            parts@.map_values(|part: &str| part@) + split_parts(raw@.skip(start as int))
                == split_parts(raw@),
            first_separator(raw@.skip(start as int), 0) == first_separator(
                raw@.skip(start as int),
                i - start,
            ),
        decreases chars.len() - i,
    {
        let ghost rest = raw@.skip(start as int);
        if chars[i] == '+' {
            let part = vstd::slice::slice_subrange(chars.as_slice(), start, i);
            assert(part@ =~= rest.take(i - start));
            let word = lower_slice(trim_end_slice(part));
            if !spells(word.as_slice(), "numpad") {
                assert(separates(rest, i - start));
                let ghost before = parts@;
                parts.push(raw.substring_char(start, i));
                assert(rest.skip(i - start + 1) =~= raw@.skip(i + 1));
                assert(parts@.map_values(|part: &str| part@) =~= before.map_values(
                    |part: &str| part@,
                ).push(rest.take(i - start)));
                assert(before.map_values(|part: &str| part@) + (seq![rest.take(i - start)]
                    + split_parts(raw@.skip(i + 1))) =~= parts@.map_values(|part: &str| part@)
                    + split_parts(raw@.skip(i + 1)));
                start = i + 1;
            }
        }
        i += 1;
    }
    let ghost before = parts@;
    parts.push(raw.substring_char(start, chars.len()));
    assert(raw@.skip(start as int) =~= raw@.subrange(start as int, raw@.len() as int));
    assert(parts@.map_values(|part: &str| part@) =~= before.map_values(|part: &str| part@)
        + seq![raw@.skip(start as int)]);
    parts
}

/// `s` with a space for every underscore.
pub open spec fn underscores_to_spaces(s: Seq<char>) -> Seq<char> {
    s.map_values(
        |c: char|
            if c == '_' {
                ' '
            } else {
                c
            },
    )
}

/// A part as it is compared with the names of keys: trimmed, in lower case, with
/// spaces for underscores, and without the word that picks the left or the right
/// one of two keys.
pub open spec fn normalized(part: Seq<char>) -> Seq<char> {
    let plain = underscores_to_spaces(text::lower(text::trim(part)));
    let rest = match text::strip_prefix(plain, "left "@) {
        Some(rest) => rest,
        None => match text::strip_prefix(plain, "right "@) {
            Some(rest) => rest,
            None => plain,
        },
    };
    match text::strip_suffix(rest, " left"@) {
        Some(start) => start,
        None => match text::strip_suffix(rest, " right"@) {
            Some(start) => start,
            None => rest,
        },
    }
}

/// Replaces every underscore by a space.
fn spaces_for_underscores(s: &[char]) -> (r: Vec<char>)
    ensures
        r@ == underscores_to_spaces(s@),
{
    let mut r: Vec<char> = Vec::new();
    let mut i: usize = 0;
    while i < s.len()
        invariant
            i <= s.len(),
            r@ == underscores_to_spaces(s@.take(i as int)),
        decreases s.len() - i,
    {
        let c = s[i];
        r.push(
            if c == '_' {
                ' '
            } else {
                c
            },
        );
        assert(r@ =~= underscores_to_spaces(s@.take(i + 1)));
        i += 1;
    }
    assert(s@.take(i as int) =~= s@);
    r
}

/// Brings a part into the form in which it is compared with the names of keys.
pub fn normalize_part(part: &str) -> (r: String)
    ensures
        r@ == normalized(part@),
{
    let chars = chars_of(part);
    let plain = spaces_for_underscores(lower_slice(trim_slice(chars.as_slice())).as_slice());
    let rest = match strip_prefix_slice(plain.as_slice(), "left ") {
        Some(rest) => rest,
        None => match strip_prefix_slice(plain.as_slice(), "right ") {
            Some(rest) => rest,
            None => plain.as_slice(),
        },
    };
    let name = match strip_suffix_slice(rest, " left") {
        Some(start) => start,
        None => match strip_suffix_slice(rest, " right") {
            Some(start) => start,
            None => rest,
        },
    };
    string_of(name)
}

/// The virtual key code of a key that goes by a name.
pub open spec fn named_key(key: Seq<char>) -> Option<u32> {
    if key == "backspace"@ {
        Some(VK_BACK)
    } else if key == "tab"@ {
        Some(VK_TAB)
    } else if key == "enter"@ || key == "return"@ {
        Some(VK_RETURN)
    } else if key == "pause"@ {
        Some(VK_PAUSE)
    } else if key == "caps lock"@ || key == "capslock"@ {
        Some(VK_CAPITAL)
    } else if key == "escape"@ || key == "esc"@ {
        Some(VK_ESCAPE)
    } else if key == "space"@ {
        Some(VK_SPACE)
    } else if key == "page up"@ || key == "pageup"@ {
        Some(VK_PRIOR)
    } else if key == "page down"@ || key == "pagedown"@ {
        Some(VK_NEXT)
    } else if key == "end"@ {
        Some(VK_END)
    } else if key == "home"@ {
        Some(VK_HOME)
    } else if key == "left"@ || key == "arrow left"@ {
        Some(VK_LEFT)
    } else if key == "up"@ || key == "arrow up"@ {
        Some(VK_UP)
    } else if key == "right"@ || key == "arrow right"@ {
        Some(VK_RIGHT)
    } else if key == "down"@ || key == "arrow down"@ {
        Some(VK_DOWN)
    } else if key == "print screen"@ || key == "printscreen"@ {
        Some(VK_SNAPSHOT)
    } else if key == "insert"@ {
        Some(VK_INSERT)
    } else if key == "delete"@ || key == "del"@ {
        Some(VK_DELETE)
    } else if key == "menu"@ {
        Some(VK_APPS)
    } else if key == "num lock"@ || key == "numlock"@ {
        Some(VK_NUMLOCK)
    } else if key == "scroll lock"@ || key == "scrolllock"@ {
        Some(VK_SCROLL)
    } else if key == "numpad *"@ {
        Some(VK_MULTIPLY)
    } else if key == "numpad +"@ {
        Some(VK_ADD)
    } else if key == "numpad -"@ {
        Some(VK_SUBTRACT)
    } else if key == "numpad ."@ {
        Some(VK_DECIMAL)
    } else if key == "numpad /"@ {
        Some(VK_DIVIDE)
    } else if key == ";"@ {
        Some(VK_OEM_1)
    } else if key == "="@ {
        Some(VK_OEM_PLUS)
    } else if key == ","@ {
        Some(VK_OEM_COMMA)
    } else if key == "-"@ {
        Some(VK_OEM_MINUS)
    } else if key == "."@ {
        Some(VK_OEM_PERIOD)
    } else if key == "/"@ {
        Some(VK_OEM_2)
    } else if key == "`"@ {
        Some(VK_OEM_3)
    } else if key == "["@ {
        Some(VK_OEM_4)
    } else if key == "\\"@ {
        Some(VK_OEM_5)
    } else if key == "]"@ {
        Some(VK_OEM_6)
    } else if key == "'"@ {
        Some(VK_OEM_7)
    } else {
        None
    }
}

/// The virtual key code of a key: that of a letter or a digit, of a function key
/// from `f1` to `f24`, of a digit on the number pad, or of a named key.
pub open spec fn key_code(key: Seq<char>) -> Option<u32> {
    let letter = key.len() == 1 && ('a' <= key[0] <= 'z' || 'A' <= key[0] <= 'Z');
    let digit = key.len() == 1 && '0' <= key[0] <= '9';
    let function = match text::strip_prefix(key, "f"@) {
        Some(number) => text::u32_value(number),
        None => None,
    };
    let numpad = match text::strip_prefix(key, "numpad "@) {
        Some(number) => text::u32_value(number),
        None => None,
    };
    if letter {
        Some(text::ascii_upper(key[0]) as u32)
    } else if digit {
        Some(key[0] as u32)
    } else if function is Some && 1 <= function->0 <= 24 {
        Some((VK_F1 + function->0 - 1) as u32)
    } else if numpad is Some && numpad->0 <= 9 {
        Some((VK_NUMPAD0 + numpad->0) as u32)
    } else {
        named_key(key)
    }
}

/// What is said of a key that has no virtual key code.
pub open spec fn unsupported_key_message(key: Seq<char>) -> Seq<char> {
    "Unsupported Windows low-level hook key: '"@ + key + "'"@
}

/// Looks up the virtual key code of a key that goes by a name.
fn lookup_named_key(key: &[char]) -> (r: Option<u32>)
    ensures
        r == named_key(key@),
{
    if spells(key, "backspace") {
        Some(VK_BACK)
    } else if spells(key, "tab") {
        Some(VK_TAB)
    } else if spells(key, "enter") || spells(key, "return") {
        Some(VK_RETURN)
    } else if spells(key, "pause") {
        Some(VK_PAUSE)
    } else if spells(key, "caps lock") || spells(key, "capslock") {
        Some(VK_CAPITAL)
    } else if spells(key, "escape") || spells(key, "esc") {
        Some(VK_ESCAPE)
    } else if spells(key, "space") {
        Some(VK_SPACE)
    } else if spells(key, "page up") || spells(key, "pageup") {
        Some(VK_PRIOR)
    } else if spells(key, "page down") || spells(key, "pagedown") {
        Some(VK_NEXT)
    } else if spells(key, "end") {
        Some(VK_END)
    } else if spells(key, "home") {
        Some(VK_HOME)
    } else if spells(key, "left") || spells(key, "arrow left") {
        Some(VK_LEFT)
    } else if spells(key, "up") || spells(key, "arrow up") {
        Some(VK_UP)
    } else if spells(key, "right") || spells(key, "arrow right") {
        Some(VK_RIGHT)
    } else if spells(key, "down") || spells(key, "arrow down") {
        Some(VK_DOWN)
    } else if spells(key, "print screen") || spells(key, "printscreen") {
        Some(VK_SNAPSHOT)
    } else if spells(key, "insert") {
        Some(VK_INSERT)
    } else if spells(key, "delete") || spells(key, "del") {
        Some(VK_DELETE)
    } else if spells(key, "menu") {
        Some(VK_APPS)
    } else if spells(key, "num lock") || spells(key, "numlock") {
        Some(VK_NUMLOCK)
    } else if spells(key, "scroll lock") || spells(key, "scrolllock") {
        Some(VK_SCROLL)
    } else if spells(key, "numpad *") {
        Some(VK_MULTIPLY)
    } else if spells(key, "numpad +") {
        Some(VK_ADD)
    } else if spells(key, "numpad -") {
        Some(VK_SUBTRACT)
    } else if spells(key, "numpad .") {
        Some(VK_DECIMAL)
    } else if spells(key, "numpad /") {
        Some(VK_DIVIDE)
    } else if spells(key, ";") {
        Some(VK_OEM_1)
    } else if spells(key, "=") {
        Some(VK_OEM_PLUS)
    } else if spells(key, ",") {
        Some(VK_OEM_COMMA)
    } else if spells(key, "-") {
        Some(VK_OEM_MINUS)
    } else if spells(key, ".") {
        Some(VK_OEM_PERIOD)
    } else if spells(key, "/") {
        Some(VK_OEM_2)
    } else if spells(key, "`") {
        Some(VK_OEM_3)
    } else if spells(key, "[") {
        Some(VK_OEM_4)
    } else if spells(key, "\\") {
        Some(VK_OEM_5)
    } else if spells(key, "]") {
        Some(VK_OEM_6)
    } else if spells(key, "'") {
        Some(VK_OEM_7)
    } else {
        None
    }
}

/// Looks up the virtual key code of a key.
pub fn parse_key(key: &str) -> (r: Result<u32, String>)
    ensures
        match r {
            Ok(code) => key_code(key@) == Some(code),
            Err(message) => key_code(key@) is None && message@ == unsupported_key_message(key@),
        },
{
    let chars = chars_of(key);
    if chars.len() == 1 {
        let c = chars[0];
        if 'a' <= c && c <= 'z' {
            return Ok((c as u8 - 32) as u32);
        }
        if ('A' <= c && c <= 'Z') || ('0' <= c && c <= '9') {
            return Ok(c as u32);
        }
    }
    if let Some(number) = strip_prefix_slice(chars.as_slice(), "f") {
        if let Some(n) = parse_u32(number) {
            if 1 <= n && n <= 24 {
                return Ok(VK_F1 + n - 1);
            }
        }
    }
    if let Some(number) = strip_prefix_slice(chars.as_slice(), "numpad ") {
        if let Some(n) = parse_u32(number) {
            if n <= 9 {
                return Ok(VK_NUMPAD0 + n);
            }
        }
    }
    match lookup_named_key(chars.as_slice()) {
        Some(code) => Ok(code),
        None => {
            let mut message = "Unsupported Windows low-level hook key: '".to_owned();
            message.append(key);
            message.append("'");
            Err(message)
        },
    }
}

/// What a part of a shortcut stands for.
#[derive(Clone, Copy, Debug, PartialEq, Eq, Structural)]
pub enum PartKind {
    Ctrl,
    Alt,
    Shift,
    Meta,
    Function,
    Key,
}

/// What a normalized part stands for.
pub open spec fn part_kind(part: Seq<char>) -> PartKind {
    if part == "ctrl"@ || part == "control"@ {
        PartKind::Ctrl
    } else if part == "alt"@ || part == "option"@ {
        PartKind::Alt
    } else if part == "shift"@ {
        PartKind::Shift
    } else if part == "cmd"@ || part == "command"@ || part == "super"@ || part == "win"@ || part
        == "windows"@ || part == "meta"@ {
        PartKind::Meta
    } else if part == "fn"@ || part == "function"@ {
        PartKind::Function
    } else {
        PartKind::Key
    }
}

/// Tells what a normalized part stands for.
fn classify(part: &[char]) -> (r: PartKind)
    ensures
        r == part_kind(part@),
{
    if spells(part, "ctrl") || spells(part, "control") {
        PartKind::Ctrl
    } else if spells(part, "alt") || spells(part, "option") {
        PartKind::Alt
    } else if spells(part, "shift") {
        PartKind::Shift
    } else if spells(part, "cmd") || spells(part, "command") || spells(part, "super") || spells(
        part,
        "win",
    ) || spells(part, "windows") || spells(part, "meta") {
        PartKind::Meta
    } else if spells(part, "fn") || spells(part, "function") {
        PartKind::Function
    } else {
        PartKind::Key
    }
}

/// A shortcut that asks for no key at all.
pub open spec fn no_keys() -> ParsedShortcut {
    ParsedShortcut { ctrl: false, alt: false, shift: false, meta: false, key: None }
}

/// What is said of a shortcut with the fn key.
pub open spec fn fn_key_message() -> Seq<char> {
    "The fn key is not available to the Windows low-level hook"@
}

/// What is said of a shortcut with a second key that is no modifier.
pub open spec fn second_key_message(raw: Seq<char>) -> Seq<char> {
    "Only one non-modifier key is supported: '"@ + raw + "'"@
}

/// What is said of a shortcut without any key.
pub open spec fn no_keys_message() -> Seq<char> {
    "Shortcut cannot be empty"@
}

/// What the parts of `raw`, read from left to right, make of the keys found so
/// far: all keys, or the message for the first part that is refused.
pub open spec fn read_parts(
    raw: Seq<char>,
    parts: Seq<Seq<char>>,
    found: ParsedShortcut,
) -> Result<ParsedShortcut, Seq<char>>
    decreases parts.len(),
{
    if parts.len() == 0 {
        Ok(found)
    } else {
        let part = normalized(parts[0]);
        let rest = parts.skip(1);
        if part.len() == 0 {
            read_parts(raw, rest, found)
        } else {
            match part_kind(part) {
                PartKind::Ctrl => read_parts(raw, rest, ParsedShortcut { ctrl: true, ..found }),
                PartKind::Alt => read_parts(raw, rest, ParsedShortcut { alt: true, ..found }),
                PartKind::Shift => read_parts(raw, rest, ParsedShortcut { shift: true, ..found }),
                PartKind::Meta => read_parts(raw, rest, ParsedShortcut { meta: true, ..found }),
                PartKind::Function => Err(fn_key_message()),
                PartKind::Key => if found.key is Some {
                    Err(second_key_message(raw))
                } else {
                    match key_code(part) {
                        Some(code) => read_parts(
                            raw,
                            rest,
                            ParsedShortcut { key: Some(code), ..found },
                        ),
                        None => Err(unsupported_key_message(part)),
                    }
                },
            }
        }
    }
}

/// The keys that a shortcut asks for, or the message that says why it is refused.
pub open spec fn parsed(raw: Seq<char>) -> Result<ParsedShortcut, Seq<char>> {
    match read_parts(raw, split_parts(raw), no_keys()) {
        Ok(found) => if found == no_keys() {
            Err(no_keys_message())
        } else {
            Ok(found)
        },
        Err(message) => Err(message),
    }
}

/// Reads a shortcut.
pub fn parse_shortcut(raw: &str) -> (r: Result<ParsedShortcut, String>)
    ensures
        match r {
            Ok(shortcut) => parsed(raw@) == Ok::<ParsedShortcut, Seq<char>>(shortcut),
            Err(message) => parsed(raw@) == Err::<ParsedShortcut, Seq<char>>(message@),
        },
{
    let mut shortcut = ParsedShortcut {
        ctrl: false,
        alt: false,
        shift: false,
        meta: false,
        key: None,
    };
    let parts = split_shortcut_parts(raw);
    let ghost views = split_parts(raw@);
    let mut i: usize = 0;
    assert(views.skip(0) =~= views);
    while i < parts.len()
        invariant
            i <= parts.len(),
            parts@.map_values(|part: &str| part@) == views,
            views == split_parts(raw@),
            read_parts(raw@, views.skip(i as int), shortcut) == read_parts(
                raw@,
                views,
                no_keys(),
            ),
        decreases parts.len() - i,
    {
        assert(views[i as int] == parts@[i as int]@);
        assert(views.skip(i as int).skip(1) =~= views.skip(i + 1));
        let part = normalize_part(parts[i]);
        let chars = chars_of(part.as_str());
        i += 1;
        if chars.len() == 0 {
            continue;
        }
        match classify(chars.as_slice()) {
            PartKind::Ctrl => {
                shortcut.ctrl = true;
            },
            PartKind::Alt => {
                shortcut.alt = true;
            },
            PartKind::Shift => {
                shortcut.shift = true;
            },
            PartKind::Meta => {
                shortcut.meta = true;
            },
            PartKind::Function => {
                return Err("The fn key is not available to the Windows low-level hook".to_owned());
            },
            PartKind::Key => {
                if shortcut.key.is_some() {
                    let mut message = "Only one non-modifier key is supported: '".to_owned();
                    message.append(raw);
                    message.append("'");
                    return Err(message);
                }
                match parse_key(part.as_str()) {
                    Ok(code) => {
                        shortcut.key = Some(code);
                    },
                    Err(message) => {
                        return Err(message);
                    },
                }
            },
        }
    }
    if !shortcut.ctrl && !shortcut.alt && !shortcut.shift && !shortcut.meta
        && shortcut.key.is_none() {
        return Err("Shortcut cannot be empty".to_owned());
    }
    Ok(shortcut)
}

/// Tells whether a shortcut can be registered, and why not.
pub fn validate_shortcut(raw: &str) -> (r: Result<(), String>)
    ensures
        match r {
            Ok(_) => parsed(raw@) is Ok,
            Err(message) => parsed(raw@) == Err::<ParsedShortcut, Seq<char>>(message@),
        },
{
    match parse_shortcut(raw) {
        Ok(_) => Ok(()),
        Err(message) => Err(message),
    }
}

/// Whether one of `keys` is held down.
pub open spec fn any_held(held: Set<u32>, keys: Seq<u32>) -> bool {
    exists|i: int| 0 <= i < keys.len() && held.contains(#[trigger] keys[i])
}

/// Whether a control key is held down.
pub open spec fn ctrl_held(held: Set<u32>) -> bool {
    held.contains(VK_CONTROL) || held.contains(VK_LCONTROL) || held.contains(VK_RCONTROL)
}

/// Whether an alt key is held down.
pub open spec fn alt_held(held: Set<u32>) -> bool {
    held.contains(VK_MENU) || held.contains(VK_LMENU) || held.contains(VK_RMENU)
}

/// Whether a shift key is held down.
pub open spec fn shift_held(held: Set<u32>) -> bool {
    held.contains(VK_SHIFT) || held.contains(VK_LSHIFT) || held.contains(VK_RSHIFT)
}

/// Whether a Windows key is held down.
pub open spec fn meta_held(held: Set<u32>) -> bool {
    held.contains(VK_LWIN) || held.contains(VK_RWIN)
}

/// Whether the key with code `key` is held down; the code of a modifier stands for
/// its left and its right key too.
pub open spec fn key_held(held: Set<u32>, key: u32) -> bool {
    if key == VK_CONTROL {
        ctrl_held(held)
    } else if key == VK_MENU {
        alt_held(held)
    } else if key == VK_SHIFT {
        shift_held(held)
    } else {
        held.contains(key)
    }
}

/// Tells whether one of `keys` is held down.
pub fn any_pressed(pressed_keys: &HashSet<u32>, keys: &[u32]) -> (r: bool)
    ensures
        r == any_held(pressed_keys@, keys@),
{
    broadcast use vstd::std_specs::hash::group_hash_axioms;

    let mut i: usize = 0;
    while i < keys.len()
        invariant
            i <= keys.len(),
            forall|j: int| 0 <= j < i ==> !pressed_keys@.contains(#[trigger] keys@[j]),
        decreases keys.len() - i,
    {
        if pressed_keys.contains(&keys[i]) {
            assert(pressed_keys@.contains(keys@[i as int]));
            return true;
        }
        i += 1;
    }
    false
}

/// Tells whether one of three keys is held down.
fn any_of_three(pressed_keys: &HashSet<u32>, a: u32, b: u32, c: u32) -> (r: bool)
    ensures
        r == (pressed_keys@.contains(a) || pressed_keys@.contains(b) || pressed_keys@.contains(c)),
{
    let keys: [u32; 3] = [a, b, c];
    let r = any_pressed(pressed_keys, &keys);
    assert(keys@[0] == a && keys@[1] == b && keys@[2] == c);
    r
}

/// Tells whether the key with code `key` is held down.
pub fn key_pressed(pressed_keys: &HashSet<u32>, key: u32) -> (r: bool)
    ensures
        r == key_held(pressed_keys@, key),
{
    broadcast use vstd::std_specs::hash::group_hash_axioms;

    if key == VK_CONTROL {
        return any_of_three(pressed_keys, VK_CONTROL, VK_LCONTROL, VK_RCONTROL);
    }
    if key == VK_MENU {
        return any_of_three(pressed_keys, VK_MENU, VK_LMENU, VK_RMENU);
    }
    if key == VK_SHIFT {
        return any_of_three(pressed_keys, VK_SHIFT, VK_LSHIFT, VK_RSHIFT);
    }
    pressed_keys.contains(&key)
}

impl ParsedShortcut {
    /// Whether the keys held down are the shortcut's: each modifier is held exactly
    /// where the shortcut asks for it, and so is its key, beside any others.
    pub open spec fn held_by(self, held: Set<u32>) -> bool {
        &&& self.ctrl == ctrl_held(held)
        &&& self.alt == alt_held(held)
        &&& self.shift == shift_held(held)
        &&& self.meta == meta_held(held)
        &&& self.key matches Some(key) ==> key_held(held, key)
    }

    /// Tells whether the keys held down are the shortcut's.
    pub fn matches(&self, pressed_keys: &HashSet<u32>) -> (r: bool)
        ensures
            r == self.held_by(pressed_keys@),
    {
        broadcast use vstd::std_specs::hash::group_hash_axioms;

        self.ctrl == any_of_three(pressed_keys, VK_CONTROL, VK_LCONTROL, VK_RCONTROL) && self.alt
            == any_of_three(pressed_keys, VK_MENU, VK_LMENU, VK_RMENU) && self.shift
            == any_of_three(pressed_keys, VK_SHIFT, VK_LSHIFT, VK_RSHIFT) && self.meta == (
        pressed_keys.contains(&VK_LWIN) || pressed_keys.contains(&VK_RWIN)) && match self.key {
            Some(key) => key_pressed(pressed_keys, key),
            None => true,
        }
    }
}

/// The low-level keyboard hook: the thread behind it, while there is one.
pub struct WindowsHookState<R> {
    runtime: Option<R>,
}

/// What registering a shortcut comes to, from whether the hook has a thread and from
/// what came of asking it.
pub open spec fn register_result(running: bool, exchange: Exchange) -> Result<(), Seq<char>> {
    if !running {
        Err::<(), Seq<char>>("Windows low-level hook is not running"@)
    } else {
        match exchange {
            Exchange::NotSent => Err("Failed to send Windows hook register command"@),
            Exchange::NoReply => Err("Failed to receive Windows hook register response"@),
            Exchange::Reply(reply) => lifecycle::outcome(reply),
        }
    }
}

/// What unregistering a shortcut comes to, from whether the hook has a thread and
/// from what came of asking it.
pub open spec fn unregister_result(running: bool, exchange: Exchange) -> Result<(), Seq<char>> {
    if !running {
        Ok::<(), Seq<char>>(())
    } else {
        match exchange {
            Exchange::NotSent => Err("Failed to send Windows hook unregister command"@),
            Exchange::NoReply => Err("Failed to receive Windows hook unregister response"@),
            Exchange::Reply(reply) => lifecycle::outcome(reply),
        }
    }
}

/// Tells what registering a shortcut comes to.
pub fn register_reply(running: bool, exchange: Exchange) -> (r: Result<(), String>)
    ensures
        lifecycle::outcome(r) == register_result(running, exchange),
{
    if !running {
        return Err("Windows low-level hook is not running".to_owned());
    }
    match exchange {
        Exchange::NotSent => Err("Failed to send Windows hook register command".to_owned()),
        Exchange::NoReply => Err("Failed to receive Windows hook register response".to_owned()),
        Exchange::Reply(reply) => reply,
    }
}

/// Tells what unregistering a shortcut comes to.
pub fn unregister_reply(running: bool, exchange: Exchange) -> (r: Result<(), String>)
    ensures
        lifecycle::outcome(r) == unregister_result(running, exchange),
{
    if !running {
        return Ok(());
    }
    match exchange {
        Exchange::NotSent => Err("Failed to send Windows hook unregister command".to_owned()),
        Exchange::NoReply => Err("Failed to receive Windows hook unregister response".to_owned()),
        Exchange::Reply(reply) => reply,
    }
}

impl<R> WindowsHookState<R> {
    /// The thread behind the hook, while there is one.
    pub closed spec fn runtime(&self) -> Option<R> {
        self.runtime
    }

    /// The hook before its first start.
    pub fn new() -> (r: Self)
        ensures
            r.runtime() is None,
    {
        WindowsHookState { runtime: None }
    }

    /// What is said where the hook's thread cannot be looked at.
    pub fn lock_failed() -> (r: String)
        ensures
            r@ == "Failed to lock Windows hook runtime"@,
    {
        "Failed to lock Windows hook runtime".to_owned()
    }

    /// Hands out the thread behind the hook, while there is one.
    pub fn running(&self) -> (r: Option<&R>)
        ensures
            match r {
                Some(runtime) => self.runtime() == Some(*runtime),
                None => self.runtime() is None,
            },
    {
        match &self.runtime {
            Some(runtime) => Some(runtime),
            None => None,
        }
    }

    /// Takes over a thread that was started for the hook, if it has come up and the
    /// hook has none yet. Any other thread is handed back, to be waited for.
    pub fn start(&mut self, runtime: R, ready: Ready) -> (r: (Result<(), String>, Option<R>))
        ensures
            ({
                let (result, back) = r;
                if old(self).runtime() is Some {
                    &&& final(self).runtime() == old(self).runtime()
                    &&& result is Ok
                    &&& back == Some(runtime)
                } else {
                    match ready {
                        Ready::Started => {
                            &&& final(self).runtime() == Some(runtime)
                            &&& result is Ok
                            &&& back is None
                        },
                        Ready::Failed(message) => {
                            &&& final(self).runtime() is None
                            &&& result == Err::<(), String>(message)
                            &&& back == Some(runtime)
                        },
                        Ready::TimedOut(error) => {
                            &&& final(self).runtime() is None
                            &&& lifecycle::outcome(result) == Err::<(), Seq<char>>(
                                "Timed out starting Windows low-level hook: "@ + error@,
                            )
                            &&& back == Some(runtime)
                        },
                    }
                }
            }),
    {
        if self.runtime.is_some() {
            return (Ok(()), Some(runtime));
        }
        match ready {
            Ready::Started => {
                self.runtime = Some(runtime);
                (Ok(()), None)
            },
            Ready::Failed(message) => (Err(message), Some(runtime)),
            Ready::TimedOut(error) => {
                let mut message = "Timed out starting Windows low-level hook: ".to_owned();
                message.append(error.as_str());
                (Err(message), Some(runtime))
            },
        }
    }

    /// Lets go of the thread behind the hook, to be stopped and waited for.
    pub fn shutdown(&mut self) -> (r: Option<R>)
        ensures
            r == old(self).runtime(),
            final(self).runtime() is None,
    {
        self.runtime.take()
    }

    /// What registering a shortcut with the hook comes to.
    pub fn register(&self, exchange: Exchange) -> (r: Result<(), String>)
        ensures
            lifecycle::outcome(r) == register_result(self.runtime() is Some, exchange),
    {
        register_reply(self.runtime.is_some(), exchange)
    }

    /// What unregistering a shortcut from the hook comes to: there is nothing to do
    /// for a hook without a thread.
    pub fn unregister(&self, exchange: Exchange) -> (r: Result<(), String>)
        ensures
            lifecycle::outcome(r) == unregister_result(self.runtime() is Some, exchange),
    {
        unregister_reply(self.runtime.is_some(), exchange)
    }
}

/// Registers a shortcut with the app's hook, if it has one.
pub fn register_shortcut<R>(state: Option<&WindowsHookState<R>>, exchange: Exchange) -> (r: Result<
    (),
    String,
>)
    ensures
        match state {
            Some(hook) => lifecycle::outcome(r) == register_result(hook.runtime() is Some, exchange),
            None => lifecycle::outcome(r) == Err::<(), Seq<char>>("Windows low-level hook state is not initialized"@),
        },
{
    match state {
        Some(hook) => hook.register(exchange),
        None => Err("Windows low-level hook state is not initialized".to_owned()),
    }
}

/// Unregisters a shortcut from the app's hook, if it has one.
pub fn unregister_shortcut<R>(state: Option<&WindowsHookState<R>>, exchange: Exchange) -> (r: Result<
    (),
    String,
>)
    ensures
        match state {
            Some(hook) => lifecycle::outcome(r) == unregister_result(hook.runtime() is Some, exchange),
            None => lifecycle::outcome(r) == Err::<(), Seq<char>>("Windows low-level hook state is not initialized"@),
        },
{
    match state {
        Some(hook) => hook.unregister(exchange),
        None => Err("Windows low-level hook state is not initialized".to_owned()),
    }
}

/// What is said where the system refuses the hook.
pub fn install_failed(error: &str) -> (r: String)
    ensures
        r@ == "Failed to install Windows low-level keyboard hook: "@ + error@,
{
    let mut message = "Failed to install Windows low-level keyboard hook: ".to_owned();
    message.append(error);
    message
}

/// The message number of a key that goes down.
pub const WM_KEYDOWN: u32 = 0x100;

/// The message number of a key that goes up.
pub const WM_KEYUP: u32 = 0x101;

/// The message number of a key that goes down while alt is held.
pub const WM_SYSKEYDOWN: u32 = 0x104;

/// The message number of a key that goes up while alt is held.
pub const WM_SYSKEYUP: u32 = 0x105;

/// The hook code of a message that is to be acted on.
pub const HC_ACTION: i32 = 0;

/// Tells whether what the system calls the hook with is a key that goes down, with
/// `true`, or up, with `false`.
pub fn low_level_keyboard_message(code: i32, message: u32) -> (r: Option<bool>)
    ensures
        r == (if code != HC_ACTION {
            None
        } else if message == WM_KEYDOWN || message == WM_SYSKEYDOWN {
            Some(true)
        } else if message == WM_KEYUP || message == WM_SYSKEYUP {
            Some(false)
        } else {
            None
        }),
{
    if code != HC_ACTION {
        return None;
    }
    if message == WM_KEYDOWN || message == WM_SYSKEYDOWN {
        Some(true)
    } else if message == WM_KEYUP || message == WM_SYSKEYUP {
        Some(false)
    } else {
        None
    }
}

/// Something that is done when the system calls the hook.
#[derive(Clone, Copy, Debug, PartialEq, Eq, Structural)]
pub enum KeyboardStep {
    Note { is_down: bool },
    PassOn,
}

/// What is done when the system calls the hook: a key that goes down or up is noted,
/// and then whatever came is passed on to the next hook, as it came.
pub open spec fn keyboard_steps(code: i32, message: u32) -> Seq<KeyboardStep> {
    if code == HC_ACTION && (message == WM_KEYDOWN || message == WM_SYSKEYDOWN) {
        seq![KeyboardStep::Note { is_down: true }, KeyboardStep::PassOn]
    } else if code == HC_ACTION && (message == WM_KEYUP || message == WM_SYSKEYUP) {
        seq![KeyboardStep::Note { is_down: false }, KeyboardStep::PassOn]
    } else {
        seq![KeyboardStep::PassOn]
    }
}

/// Lists what is done when the system calls the hook, in order.
pub fn low_level_keyboard_steps(code: i32, message: u32) -> (r: Vec<KeyboardStep>)
    ensures
        r@ == keyboard_steps(code, message),
{
    let mut r: Vec<KeyboardStep> = Vec::new();
    if let Some(is_down) = low_level_keyboard_message(code, message) {
        r.push(KeyboardStep::Note { is_down });
    }
    r.push(KeyboardStep::PassOn);
    assert(r@ =~= keyboard_steps(code, message));
    r
}

/// Whatever the system calls the hook with is passed on to the next hook, once, and
/// last.
pub proof fn lemma_passed_on(code: i32, message: u32)
    ensures
        ({
            let steps = keyboard_steps(code, message);
            forall|i: int|
                0 <= i < steps.len() ==> (#[trigger] steps[i] == KeyboardStep::PassOn <==> i
                    == steps.len() - 1)
        }),
{
}

} // verus!
