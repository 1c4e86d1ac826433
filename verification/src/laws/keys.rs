//! Shortcuts: how they are split, which keys their parts name, and what holding them
//! means.

use crate::shortcut::grammar;
use crate::shortcut::interception_hook;
use crate::shortcut::windows_hook;
use crate::shortcut::windows_hook::{
    any_pressed, key_pressed, normalize_part, parse_key, parse_shortcut, split_shortcut_parts,
    validate_shortcut, ParsedShortcut, PartKind,
};
use crate::text;
use std::collections::HashSet;
use vstd::prelude::*;

verus! {

/// Whether a plus sign behind a text belongs to the key on the number pad.
pub open spec fn before_numpad_plus(s: Seq<char>) -> bool {
    text::lower(text::trim_end(s)) == "numpad"@
}

proof fn lemma_separator_found(s: Seq<char>, from: int)
    requires
        0 <= from <= s.len(),
    ensures
        ({
            let i = windows_hook::first_separator(s, from);
            &&& from <= i <= s.len()
            &&& forall|j: int| from <= j < i ==> !windows_hook::separates(s, j)
            &&& i < s.len() ==> windows_hook::separates(s, i)
        }),
    decreases s.len() - from,
{
    if from < s.len() && !windows_hook::separates(s, from) {
        lemma_separator_found(s, from + 1);
    }
}

/// A part of a shortcut holds no plus sign but one right behind the word for the number
/// pad, and only the last part can be that word alone: a plus sign behind it would have
/// belonged to it.
pub proof fn lemma_plus_in_part(s: Seq<char>, i: int, at: int)
    requires
        0 <= i < windows_hook::split_parts(s).len(),
    ensures
        ({
            let part = windows_hook::split_parts(s)[i];
            &&& 0 <= at < part.len() && part[at] == '+' ==> before_numpad_plus(part.take(at))
            &&& i < windows_hook::split_parts(s).len() - 1 ==> !before_numpad_plus(part)
        }),
    decreases s.len(),
{
    let end = windows_hook::first_separator(s, 0);
    lemma_separator_found(s, 0);
    let parts = windows_hook::split_parts(s);
    if end < s.len() {
        let rest = windows_hook::split_parts(s.skip(end + 1));
        if i == 0 {
            let part = s.take(end);
            assert(parts[0] == part);
            if 0 <= at < part.len() && part[at] == '+' {
                assert(!windows_hook::separates(s, at));
                assert(part.take(at) =~= s.take(at));
            }
        } else {
            assert(parts[i] == rest[i - 1]);
            lemma_plus_in_part(s.skip(end + 1), i - 1, at);
        }
    } else {
        assert(parts =~= seq![s]);
        if 0 <= at < s.len() && s[at] == '+' {
            assert(!windows_hook::separates(s, at));
        }
    }
}

/// The parts of a shortcut with a separating plus sign at some place are those of what
/// stands before it and those of what stands behind it.
pub proof fn lemma_split_at_plus(before: Seq<char>, after: Seq<char>)
    requires
        windows_hook::split_parts(before).len() == 1,
        !before_numpad_plus(before),
    ensures
        windows_hook::split_parts(before + seq!['+'] + after) == seq![before]
            + windows_hook::split_parts(after),
{
    let s = before + seq!['+'] + after;
    let n = before.len() as int;
    lemma_separator_found(before, 0);
    assert(windows_hook::first_separator(before, 0) == before.len()) by {
        let i = windows_hook::first_separator(before, 0);
        if i < before.len() {
            grammar::lemma_parts_join(before.skip(i + 1));
            assert(windows_hook::split_parts(before).len() >= 2);
        }
    }
    lemma_separator_found(s, 0);
    let i = windows_hook::first_separator(s, 0);
    assert(s.take(n) =~= before);
    assert(s[n] == '+');
    assert(windows_hook::separates(s, n));
    if i < n {
        assert(s.take(i) =~= before.take(i));
        assert(s[i] == before[i]);
        assert(windows_hook::separates(before, i));
    }
    assert(i == n);
    assert(s.skip(n + 1) =~= after);
}

/// A part is compared without the white space around it.
pub proof fn lemma_part_between_white_space(before: Seq<char>, part: Seq<char>, after: Seq<char>)
    requires
        forall|i: int| 0 <= i < before.len() ==> text::is_white_space(#[trigger] before[i]),
        forall|i: int| 0 <= i < after.len() ==> text::is_white_space(#[trigger] after[i]),
    ensures
        windows_hook::normalized(before + part + after) == windows_hook::normalized(part),
{
    crate::laws::text::lemma_trim_between(before, part, after);
}

/// Whether two characters of a part are compared as the same: they are, or they are one
/// letter in two cases, or a space and an underscore.
pub open spec fn compared_alike(a: char, b: char) -> bool {
    ||| a == b
    ||| 65 <= a as int <= 90 && b as int == a as int + 32
    ||| 65 <= b as int <= 90 && a as int == b as int + 32
    ||| a == '_' && b == ' '
    ||| a == ' ' && b == '_'
}

/// Parts that differ in the case of letters, and in underscores for spaces, are compared
/// as the same.
pub proof fn lemma_parts_alike(a: Seq<char>, b: Seq<char>)
    requires
        a.len() == b.len() > 0,
        !text::is_white_space(a[0]),
        !text::is_white_space(a[a.len() - 1]),
        !text::is_white_space(b[0]),
        !text::is_white_space(b[b.len() - 1]),
        forall|i: int| 0 <= i < a.len() ==> compared_alike(#[trigger] a[i], b[i]),
    ensures
        windows_hook::normalized(a) == windows_hook::normalized(b),
{
    crate::laws::text::lemma_trim_kept(a);
    crate::laws::text::lemma_trim_kept(b);
    let x = windows_hook::underscores_to_spaces(text::lower(a));
    let y = windows_hook::underscores_to_spaces(text::lower(b));
    assert forall|i: int| 0 <= i < a.len() implies x[i] == y[i] by {
        assert(compared_alike(a[i], b[i]));
        crate::laws::text::lemma_lowered(a);
        crate::laws::text::lemma_lowered(b);
        assert(text::lower(a)[i] as int == a[i] as int + (if 65 <= a[i] as int <= 90 {
            32int
        } else {
            0int
        }));
        assert(text::lower(b)[i] as int == b[i] as int + (if 65 <= b[i] as int <= 90 {
            32int
        } else {
            0int
        }));
    }
    assert(x =~= y);
}

/// Whether a word is written as it is compared, and says nothing of left and right.
pub open spec fn plain_word(word: Seq<char>) -> bool {
    &&& word.len() > 0
    &&& !text::is_white_space(word[0])
    &&& !text::is_white_space(word[word.len() - 1])
    &&& forall|i: int|
        0 <= i < word.len() ==> #[trigger] word[i] != '_' && !(65 <= word[i] as int <= 90)
    &&& forall|rest: Seq<char>|
        #![trigger "left "@ + rest]
        #![trigger "right "@ + rest]
        word != "left "@ + rest && word != "right "@ + rest
    &&& forall|start: Seq<char>|
        #![trigger start + " left"@]
        #![trigger start + " right"@]
        word != start + " left"@ && word != start + " right"@
}

proof fn lemma_kept_as_written(s: Seq<char>)
    requires
        s.len() > 0,
        !text::is_white_space(s[0]),
        !text::is_white_space(s[s.len() - 1]),
        forall|i: int| 0 <= i < s.len() ==> #[trigger] s[i] != '_' && !(65 <= s[i] as int <= 90),
    ensures
        windows_hook::underscores_to_spaces(text::lower(text::trim(s))) == s,
{
    crate::laws::text::lemma_trim_kept(s);
    crate::laws::text::lemma_lowered(s);
    let x = windows_hook::underscores_to_spaces(text::lower(s));
    assert forall|i: int| 0 <= i < s.len() implies x[i] == s[i] by {
        assert(text::lower(s)[i] as int == s[i] as int);
        assert(s[i] != '_');
    }
    assert(x =~= s);
}

proof fn lemma_no_sides(word: Seq<char>)
    requires
        plain_word(word),
    ensures
        text::strip_prefix(word, "left "@) is None,
        text::strip_prefix(word, "right "@) is None,
        text::strip_suffix(word, " left"@) is None,
        text::strip_suffix(word, " right"@) is None,
{
    if let Some(rest) = text::strip_prefix(word, "left "@) {
        crate::laws::text::lemma_prefix_stripped(word, "left "@, rest);
    }
    if let Some(rest) = text::strip_prefix(word, "right "@) {
        crate::laws::text::lemma_prefix_stripped(word, "right "@, rest);
    }
    if let Some(start) = text::strip_suffix(word, " left"@) {
        crate::laws::text::lemma_suffix_stripped(word, " left"@, start);
    }
    if let Some(start) = text::strip_suffix(word, " right"@) {
        crate::laws::text::lemma_suffix_stripped(word, " right"@, start);
    }
}

/// A word that names a key stands for it alone as well as with the side, left or right,
/// in front of it.
pub proof fn lemma_side_in_front(word: Seq<char>)
    requires
        plain_word(word),
    ensures
        windows_hook::normalized(word) == word,
        windows_hook::normalized("left "@ + word) == word,
        windows_hook::normalized("right "@ + word) == word,
{
    reveal_strlit("left ");
    reveal_strlit("right ");
    lemma_no_sides(word);
    lemma_kept_as_written(word);
    let l = "left "@ + word;
    let r = "right "@ + word;
    assert(l[l.len() - 1] == word[word.len() - 1]);
    assert(r[r.len() - 1] == word[word.len() - 1]);
    assert forall|i: int| 0 <= i < l.len() implies #[trigger] l[i] != '_' && !(65 <= l[i] as int
        <= 90) by {
        if i >= 5 {
            assert(l[i] == word[i - 5]);
        }
    }
    assert forall|i: int| 0 <= i < r.len() implies #[trigger] r[i] != '_' && !(65 <= r[i] as int
        <= 90) by {
        if i >= 6 {
            assert(r[i] == word[i - 6]);
        }
    }
    lemma_kept_as_written(l);
    lemma_kept_as_written(r);
    crate::laws::text::lemma_prefix_stripped(l, "left "@, word);
    crate::laws::text::lemma_prefix_stripped(r, "right "@, word);
    if let Some(rest) = text::strip_prefix(r, "left "@) {
        crate::laws::text::lemma_prefix_stripped(r, "left "@, rest);
        assert(r[0] == ("left "@ + rest)[0]);
    }
}

/// A word that names a key stands for it with the side behind it too.
pub proof fn lemma_side_behind(word: Seq<char>)
    requires
        plain_word(word),
        word != "left"@,
        word != "right"@,
    ensures
        windows_hook::normalized(word + " left"@) == word,
        windows_hook::normalized(word + " right"@) == word,
{
    reveal_strlit("left ");
    reveal_strlit("right ");
    reveal_strlit(" left");
    reveal_strlit(" right");
    reveal_strlit("left");
    reveal_strlit("right");
    lemma_no_sides(word);
    let l = word + " left"@;
    let r = word + " right"@;
    let n = word.len() as int;
    assert(l[0] == word[0] && r[0] == word[0]);
    assert forall|i: int| 0 <= i < l.len() implies #[trigger] l[i] != '_' && !(65 <= l[i] as int
        <= 90) by {
        if i < n {
            assert(l[i] == word[i]);
        }
    }
    assert forall|i: int| 0 <= i < r.len() implies #[trigger] r[i] != '_' && !(65 <= r[i] as int
        <= 90) by {
        if i < n {
            assert(r[i] == word[i]);
        }
    }
    lemma_kept_as_written(l);
    lemma_kept_as_written(r);
    assert("left "@ =~= "left"@.push(' '));
    assert("right "@ =~= "right"@.push(' '));
    lemma_no_side_before(word, " left"@, "left "@, "left"@);
    lemma_no_side_before(word, " left"@, "right "@, "right"@);
    lemma_no_side_before(word, " right"@, "left "@, "left"@);
    lemma_no_side_before(word, " right"@, "right "@, "right"@);
    crate::laws::text::lemma_suffix_stripped(l, " left"@, word);
    crate::laws::text::lemma_suffix_stripped(r, " right"@, word);
    if let Some(start) = text::strip_suffix(r, " left"@) {
        crate::laws::text::lemma_suffix_stripped(r, " left"@, start);
        let at = r.len() - 4;
        assert(r[at] == "right"@[1]);
        assert((start + " left"@)[at] == "left"@[0]);
    }
}

proof fn lemma_no_side_before(
    word: Seq<char>,
    behind: Seq<char>,
    side: Seq<char>,
    bare: Seq<char>,
)
    requires
        plain_word(word),
        text::strip_prefix(word, side) is None,
        word != bare,
        side == bare.push(' '),
        behind.len() > 0,
        behind[0] == ' ',
        forall|i: int| 0 <= i < bare.len() ==> #[trigger] bare[i] != ' ',
    ensures
        text::strip_prefix(word + behind, side) is None,
{
    let all = word + behind;
    if let Some(rest) = text::strip_prefix(all, side) {
        crate::laws::text::lemma_prefix_stripped(all, side, rest);
        let n = word.len() as int;
        if side.len() <= n {
            assert(word =~= side + word.skip(side.len() as int)) by {
                assert forall|i: int| 0 <= i < side.len() implies word[i] == side[i] by {
                    assert(all[i] == word[i]);
                    assert((side + rest)[i] == side[i]);
                }
            }
            crate::laws::text::lemma_prefix_stripped(word, side, word.skip(side.len() as int));
        } else {
            assert(all[n] == ' ');
            assert((side + rest)[n] == side[n]);
            if n < bare.len() {
                assert(side[n] == bare[n]);
            } else {
                assert(n == bare.len());
                assert(word =~= bare) by {
                    assert forall|i: int| 0 <= i < n implies word[i] == bare[i] by {
                        assert(all[i] == word[i]);
                        assert((side + rest)[i] == side[i]);
                        assert(side[i] == bare[i]);
                    }
                }
            }
        }
    }
}

/// The words that stand for modifiers and for the fn key; every other word names a key.
pub proof fn lemma_words(part: Seq<char>)
    ensures
        windows_hook::part_kind(part) is Ctrl <==> part == "ctrl"@ || part == "control"@,
        windows_hook::part_kind(part) is Alt <==> part == "alt"@ || part == "option"@,
        windows_hook::part_kind(part) is Shift <==> part == "shift"@,
        windows_hook::part_kind(part) is Meta <==> part == "cmd"@ || part == "command"@ || part
            == "super"@ || part == "win"@ || part == "windows"@ || part == "meta"@,
        windows_hook::part_kind(part) is Function <==> part == "fn"@ || part == "function"@,
{
    reveal_strlit("ctrl");
    reveal_strlit("control");
    reveal_strlit("alt");
    reveal_strlit("option");
    reveal_strlit("shift");
    reveal_strlit("cmd");
    reveal_strlit("command");
    reveal_strlit("super");
    reveal_strlit("win");
    reveal_strlit("windows");
    reveal_strlit("meta");
    reveal_strlit("fn");
    reveal_strlit("function");
    assert("ctrl"@.len() == 4);
    assert("control"@.len() == 7);
    assert("alt"@.len() == 3);
    assert("option"@.len() == 6);
    assert("shift"@.len() == 5);
    assert("cmd"@.len() == 3);
    assert("command"@.len() == 7);
    assert("super"@.len() == 5);
    assert("win"@.len() == 3);
    assert("windows"@.len() == 7);
    assert("meta"@.len() == 4);
    assert("fn"@.len() == 2);
    assert("function"@.len() == 8);
    assert("ctrl"@[0] == 'c');
    assert("meta"@[0] == 'm');
    assert("control"@[3] == 't');
    assert("command"@[3] == 'm');
    assert("windows"@[3] == 'd');
    assert("alt"@[0] == 'a');
    assert("cmd"@[0] == 'c');
    assert("win"@[0] == 'w');
    assert("shift"@[1] == 'h');
    assert("super"@[1] == 'u');
}

/// A letter names the key of its capital, and a digit that of itself.
pub proof fn lemma_letters_and_digits(key: Seq<char>)
    requires
        key.len() == 1,
    ensures
        97 <= key[0] as int <= 122 ==> windows_hook::key_code(key) == Some(
            (key[0] as int - 32) as u32,
        ),
        65 <= key[0] as int <= 90 ==> windows_hook::key_code(key) == Some(key[0] as int as u32),
        48 <= key[0] as int <= 57 ==> windows_hook::key_code(key) == Some(key[0] as int as u32),
{
}

/// The function keys from one to 24 follow each other from the code 0x70 on.
pub proof fn lemma_function_keys(number: Seq<char>, n: nat)
    requires
        text::u32_value(number) == Some(n),
    ensures
        1 <= n <= 24 ==> windows_hook::key_code("f"@ + number) == Some((0x6f + n) as u32),
        n == 0 || n > 24 ==> windows_hook::key_code("f"@ + number) is None,
{
    reveal_strlit("f");
    reveal_strlit("numpad ");
    let key = "f"@ + number;
    crate::laws::text::lemma_prefix_stripped(key, "f"@, number);
    assert(number.len() > 0);
    assert(key.len() >= 2);
    assert(key[0] == 'f');
    if let Some(rest) = text::strip_prefix(key, "numpad "@) {
        crate::laws::text::lemma_prefix_stripped(key, "numpad "@, rest);
        assert(("numpad "@ + rest)[0] == 'n');
    }
    assert(windows_hook::named_key(key) is None) by {
        reveal_strlit("backspace");
        reveal_strlit("tab");
        reveal_strlit("enter");
        reveal_strlit("return");
        reveal_strlit("pause");
        reveal_strlit("caps lock");
        reveal_strlit("capslock");
        reveal_strlit("escape");
        reveal_strlit("esc");
        reveal_strlit("space");
        reveal_strlit("page up");
        reveal_strlit("pageup");
        reveal_strlit("page down");
        reveal_strlit("pagedown");
        reveal_strlit("end");
        reveal_strlit("home");
        reveal_strlit("left");
        reveal_strlit("arrow left");
        reveal_strlit("up");
        reveal_strlit("arrow up");
        reveal_strlit("right");
        reveal_strlit("arrow right");
        reveal_strlit("down");
        reveal_strlit("arrow down");
        reveal_strlit("print screen");
        reveal_strlit("printscreen");
        reveal_strlit("insert");
        reveal_strlit("delete");
        reveal_strlit("del");
        reveal_strlit("menu");
        reveal_strlit("num lock");
        reveal_strlit("numlock");
        reveal_strlit("scroll lock");
        reveal_strlit("scrolllock");
        reveal_strlit("numpad *");
        reveal_strlit("numpad +");
        reveal_strlit("numpad -");
        reveal_strlit("numpad .");
        reveal_strlit("numpad /");
        reveal_strlit(";");
        reveal_strlit("=");
        reveal_strlit(",");
        reveal_strlit("-");
        reveal_strlit(".");
        reveal_strlit("/");
        reveal_strlit("`");
        reveal_strlit("[");
        reveal_strlit("\\");
        reveal_strlit("]");
        reveal_strlit("'");
        assert("backspace"@.len() == 9 && "backspace"@[0] == 'b');
        assert("tab"@.len() == 3 && "tab"@[0] == 't');
        assert("enter"@.len() == 5 && "enter"@[0] == 'e');
        assert("return"@.len() == 6 && "return"@[0] == 'r');
        assert("pause"@.len() == 5 && "pause"@[0] == 'p');
        assert("caps lock"@.len() == 9 && "caps lock"@[0] == 'c');
        assert("capslock"@.len() == 8 && "capslock"@[0] == 'c');
        assert("escape"@.len() == 6 && "escape"@[0] == 'e');
        assert("esc"@.len() == 3 && "esc"@[0] == 'e');
        assert("space"@.len() == 5 && "space"@[0] == 's');
        assert("page up"@.len() == 7 && "page up"@[0] == 'p');
        assert("pageup"@.len() == 6 && "pageup"@[0] == 'p');
        assert("page down"@.len() == 9 && "page down"@[0] == 'p');
        assert("pagedown"@.len() == 8 && "pagedown"@[0] == 'p');
        assert("end"@.len() == 3 && "end"@[0] == 'e');
        assert("home"@.len() == 4 && "home"@[0] == 'h');
        assert("left"@.len() == 4 && "left"@[0] == 'l');
        assert("arrow left"@.len() == 10 && "arrow left"@[0] == 'a');
        assert("up"@.len() == 2 && "up"@[0] == 'u');
        assert("arrow up"@.len() == 8 && "arrow up"@[0] == 'a');
        assert("right"@.len() == 5 && "right"@[0] == 'r');
        assert("arrow right"@.len() == 11 && "arrow right"@[0] == 'a');
        assert("down"@.len() == 4 && "down"@[0] == 'd');
        assert("arrow down"@.len() == 10 && "arrow down"@[0] == 'a');
        assert("print screen"@.len() == 12 && "print screen"@[0] == 'p');
        assert("printscreen"@.len() == 11 && "printscreen"@[0] == 'p');
        assert("insert"@.len() == 6 && "insert"@[0] == 'i');
        assert("delete"@.len() == 6 && "delete"@[0] == 'd');
        assert("del"@.len() == 3 && "del"@[0] == 'd');
        assert("menu"@.len() == 4 && "menu"@[0] == 'm');
        assert("num lock"@.len() == 8 && "num lock"@[0] == 'n');
        assert("numlock"@.len() == 7 && "numlock"@[0] == 'n');
        assert("scroll lock"@.len() == 11 && "scroll lock"@[0] == 's');
        assert("scrolllock"@.len() == 10 && "scrolllock"@[0] == 's');
        assert("numpad *"@.len() == 8 && "numpad *"@[0] == 'n');
        assert("numpad +"@.len() == 8 && "numpad +"@[0] == 'n');
        assert("numpad -"@.len() == 8 && "numpad -"@[0] == 'n');
        assert("numpad ."@.len() == 8 && "numpad ."@[0] == 'n');
        assert("numpad /"@.len() == 8 && "numpad /"@[0] == 'n');
        assert(";"@.len() == 1 && ";"@[0] == ';');
        assert("="@.len() == 1 && "="@[0] == '=');
        assert(","@.len() == 1 && ","@[0] == ',');
        assert("-"@.len() == 1 && "-"@[0] == '-');
        assert("."@.len() == 1 && "."@[0] == '.');
        assert("/"@.len() == 1 && "/"@[0] == '/');
        assert("`"@.len() == 1 && "`"@[0] == '`');
        assert("["@.len() == 1 && "["@[0] == '[');
        assert("\\"@.len() == 1 && "\\"@[0] == '\\');
        assert("]"@.len() == 1 && "]"@[0] == ']');
        assert("'"@.len() == 1 && "'"@[0] == '\'');
    }
}

/// The digits on the number pad follow each other from the code 0x60 on.
pub proof fn lemma_number_pad(number: Seq<char>, n: nat)
    requires
        text::u32_value(number) == Some(n),
        n <= 9,
    ensures
        windows_hook::key_code("numpad "@ + number) == Some((0x60 + n) as u32),
{
    reveal_strlit("f");
    reveal_strlit("numpad ");
    let key = "numpad "@ + number;
    crate::laws::text::lemma_prefix_stripped(key, "numpad "@, number);
    assert(key[0] == 'n');
    assert(key.len() > 1);
    if let Some(rest) = text::strip_prefix(key, "f"@) {
        crate::laws::text::lemma_prefix_stripped(key, "f"@, rest);
        assert(("f"@ + rest)[0] == 'f');
    }
}

proof fn lemma_name_is_no_number(key: Seq<char>)
    requires
        key.len() > 1,
        key[0] != 'f',
        key[0] == 'n' ==> key.len() >= 7 && (key[3] != 'p' || key.len() == 8 && !text::is_digit(
            key[7],
        )),
    ensures
        text::strip_prefix(key, "f"@) is None,
        match text::strip_prefix(key, "numpad "@) {
            Some(number) => text::u32_value(number) is None,
            None => true,
        },
{
    reveal_strlit("f");
    reveal_strlit("numpad ");
    if let Some(rest) = text::strip_prefix(key, "f"@) {
        crate::laws::text::lemma_prefix_stripped(key, "f"@, rest);
        assert(("f"@ + rest)[0] == 'f');
    }
    if let Some(rest) = text::strip_prefix(key, "numpad "@) {
        crate::laws::text::lemma_prefix_stripped(key, "numpad "@, rest);
        assert(("numpad "@ + rest)[0] == 'n');
        assert(("numpad "@ + rest)[3] == 'p');
        assert(rest.len() == 1);
        assert(("numpad "@ + rest)[7] == rest[0]);
        if rest[0] == '+' {
            assert(rest.skip(1).len() == 0);
        }
    }
}

/// The codes of the keys that edit and move.
pub proof fn lemma_editing_keys(key: Seq<char>)
    ensures
        key == "backspace"@ ==> windows_hook::key_code(key) == Some(0x08u32),
        key == "tab"@ ==> windows_hook::key_code(key) == Some(0x09u32),
        key == "enter"@ ==> windows_hook::key_code(key) == Some(0x0du32),
        key == "return"@ ==> windows_hook::key_code(key) == Some(0x0du32),
        key == "pause"@ ==> windows_hook::key_code(key) == Some(0x13u32),
        key == "caps lock"@ ==> windows_hook::key_code(key) == Some(0x14u32),
        key == "capslock"@ ==> windows_hook::key_code(key) == Some(0x14u32),
        key == "escape"@ ==> windows_hook::key_code(key) == Some(0x1bu32),
        key == "esc"@ ==> windows_hook::key_code(key) == Some(0x1bu32),
        key == "space"@ ==> windows_hook::key_code(key) == Some(0x20u32),
        key == "page up"@ ==> windows_hook::key_code(key) == Some(0x21u32),
        key == "pageup"@ ==> windows_hook::key_code(key) == Some(0x21u32),
        key == "page down"@ ==> windows_hook::key_code(key) == Some(0x22u32),
        key == "pagedown"@ ==> windows_hook::key_code(key) == Some(0x22u32),
        key == "end"@ ==> windows_hook::key_code(key) == Some(0x23u32),
        key == "home"@ ==> windows_hook::key_code(key) == Some(0x24u32),
        key == "left"@ ==> windows_hook::key_code(key) == Some(0x25u32),
        key == "arrow left"@ ==> windows_hook::key_code(key) == Some(0x25u32),
        key == "up"@ ==> windows_hook::key_code(key) == Some(0x26u32),
        key == "arrow up"@ ==> windows_hook::key_code(key) == Some(0x26u32),
        key == "right"@ ==> windows_hook::key_code(key) == Some(0x27u32),
        key == "arrow right"@ ==> windows_hook::key_code(key) == Some(0x27u32),
        key == "down"@ ==> windows_hook::key_code(key) == Some(0x28u32),
        key == "arrow down"@ ==> windows_hook::key_code(key) == Some(0x28u32),
        key == "print screen"@ ==> windows_hook::key_code(key) == Some(0x2cu32),
        key == "printscreen"@ ==> windows_hook::key_code(key) == Some(0x2cu32),
        key == "insert"@ ==> windows_hook::key_code(key) == Some(0x2du32),
        key == "delete"@ ==> windows_hook::key_code(key) == Some(0x2eu32),
        key == "del"@ ==> windows_hook::key_code(key) == Some(0x2eu32),
{
    reveal_strlit("f");
    reveal_strlit("numpad ");
    reveal_strlit("backspace");
    reveal_strlit("tab");
    reveal_strlit("enter");
    reveal_strlit("return");
    reveal_strlit("pause");
    reveal_strlit("caps lock");
    reveal_strlit("capslock");
    reveal_strlit("escape");
    reveal_strlit("esc");
    reveal_strlit("space");
    reveal_strlit("page up");
    reveal_strlit("pageup");
    reveal_strlit("page down");
    reveal_strlit("pagedown");
    reveal_strlit("end");
    reveal_strlit("home");
    reveal_strlit("left");
    reveal_strlit("arrow left");
    reveal_strlit("up");
    reveal_strlit("arrow up");
    reveal_strlit("right");
    reveal_strlit("arrow right");
    reveal_strlit("down");
    reveal_strlit("arrow down");
    reveal_strlit("print screen");
    reveal_strlit("printscreen");
    reveal_strlit("insert");
    reveal_strlit("delete");
    reveal_strlit("del");
    reveal_strlit("menu");
    reveal_strlit("num lock");
    reveal_strlit("numlock");
    reveal_strlit("scroll lock");
    reveal_strlit("scrolllock");
    reveal_strlit("numpad *");
    reveal_strlit("numpad +");
    reveal_strlit("numpad -");
    reveal_strlit("numpad .");
    reveal_strlit("numpad /");
    reveal_strlit(";");
    reveal_strlit("=");
    reveal_strlit(",");
    reveal_strlit("-");
    reveal_strlit(".");
    reveal_strlit("/");
    reveal_strlit("`");
    reveal_strlit("[");
    reveal_strlit("\\");
    reveal_strlit("]");
    reveal_strlit("'");
    assert("backspace"@.len() == 9);
    assert("tab"@.len() == 3);
    assert("enter"@.len() == 5);
    assert("return"@.len() == 6);
    assert("pause"@.len() == 5);
    assert("caps lock"@.len() == 9);
    assert("capslock"@.len() == 8);
    assert("escape"@.len() == 6);
    assert("esc"@.len() == 3);
    assert("space"@.len() == 5);
    assert("page up"@.len() == 7);
    assert("pageup"@.len() == 6);
    assert("page down"@.len() == 9);
    assert("pagedown"@.len() == 8);
    assert("end"@.len() == 3);
    assert("home"@.len() == 4);
    assert("left"@.len() == 4);
    assert("arrow left"@.len() == 10);
    assert("up"@.len() == 2);
    assert("arrow up"@.len() == 8);
    assert("right"@.len() == 5);
    assert("arrow right"@.len() == 11);
    assert("down"@.len() == 4);
    assert("arrow down"@.len() == 10);
    assert("print screen"@.len() == 12);
    assert("printscreen"@.len() == 11);
    assert("insert"@.len() == 6);
    assert("delete"@.len() == 6);
    assert("del"@.len() == 3);
    assert("menu"@.len() == 4);
    assert("num lock"@.len() == 8);
    assert("numlock"@.len() == 7);
    assert("scroll lock"@.len() == 11);
    assert("scrolllock"@.len() == 10);
    assert("numpad *"@.len() == 8);
    assert("numpad +"@.len() == 8);
    assert("numpad -"@.len() == 8);
    assert("numpad ."@.len() == 8);
    assert("numpad /"@.len() == 8);
    assert(";"@.len() == 1);
    assert("="@.len() == 1);
    assert(","@.len() == 1);
    assert("-"@.len() == 1);
    assert("."@.len() == 1);
    assert("/"@.len() == 1);
    assert("`"@.len() == 1);
    assert("["@.len() == 1);
    assert("\\"@.len() == 1);
    assert("]"@.len() == 1);
    assert("'"@.len() == 1);
    assert("backspace"@[0] == 'b');
    assert("caps lock"@[0] == 'c');
    assert("page down"@[0] == 'p');
    assert("tab"@[1] == 'a');
    assert("esc"@[1] == 's');
    assert("end"@[1] == 'n');
    assert("del"@[1] == 'e');
    assert("enter"@[0] == 'e');
    assert("pause"@[0] == 'p');
    assert("space"@[0] == 's');
    assert("right"@[0] == 'r');
    assert("return"@[0] == 'r');
    assert("escape"@[0] == 'e');
    assert("pageup"@[0] == 'p');
    assert("insert"@[0] == 'i');
    assert("delete"@[0] == 'd');
    assert("capslock"@[7] == 'k');
    assert("capslock"@[0] == 'c');
    assert("pagedown"@[7] == 'n');
    assert("pagedown"@[0] == 'p');
    assert("arrow up"@[7] == 'p');
    assert("arrow up"@[0] == 'a');
    assert("num lock"@[7] == 'k');
    assert("num lock"@[0] == 'n');
    assert("numpad *"@[7] == '*');
    assert("numpad *"@[0] == 'n');
    assert("numpad +"@[7] == '+');
    assert("numpad +"@[0] == 'n');
    assert("numpad -"@[7] == '-');
    assert("numpad -"@[0] == 'n');
    assert("numpad ."@[7] == '.');
    assert("numpad ."@[0] == 'n');
    assert("numpad /"@[7] == '/');
    assert("numpad /"@[0] == 'n');
    assert("page up"@[0] == 'p');
    assert("numlock"@[0] == 'n');
    assert("home"@[0] == 'h');
    assert("left"@[0] == 'l');
    assert("down"@[0] == 'd');
    assert("menu"@[0] == 'm');
    assert("arrow left"@[8] == 'f');
    assert("arrow down"@[8] == 'w');
    assert("scrolllock"@[8] == 'c');
    assert("arrow right"@[0] == 'a');
    assert("printscreen"@[0] == 'p');
    assert("scroll lock"@[0] == 's');
    assert(";"@[0] == ';');
    assert("="@[0] == '=');
    assert(","@[0] == ',');
    assert("-"@[0] == '-');
    assert("."@[0] == '.');
    assert("/"@[0] == '/');
    assert("`"@[0] == '`');
    assert("["@[0] == '[');
    assert("\\"@[0] == '\\');
    assert("]"@[0] == ']');
    assert("'"@[0] == '\'');
    if key.len() > 1 && windows_hook::named_key(key) is Some {
        lemma_name_is_no_number(key);
    }
    if key.len() == 1 && windows_hook::named_key(key) is Some {
        if let Some(rest) = text::strip_prefix(key, "f"@) {
            crate::laws::text::lemma_prefix_stripped(key, "f"@, rest);
            assert(("f"@ + rest)[0] == 'f');
        }
        if let Some(rest) = text::strip_prefix(key, "numpad "@) {
            crate::laws::text::lemma_prefix_stripped(key, "numpad "@, rest);
        }
    }
}

/// The codes of the other keys with names and of those for signs.
pub proof fn lemma_other_named_keys(key: Seq<char>)
    ensures
        key == "menu"@ ==> windows_hook::key_code(key) == Some(0x5du32),
        key == "num lock"@ ==> windows_hook::key_code(key) == Some(0x90u32),
        key == "numlock"@ ==> windows_hook::key_code(key) == Some(0x90u32),
        key == "scroll lock"@ ==> windows_hook::key_code(key) == Some(0x91u32),
        key == "scrolllock"@ ==> windows_hook::key_code(key) == Some(0x91u32),
        key == "numpad *"@ ==> windows_hook::key_code(key) == Some(0x6au32),
        key == "numpad +"@ ==> windows_hook::key_code(key) == Some(0x6bu32),
        key == "numpad -"@ ==> windows_hook::key_code(key) == Some(0x6du32),
        key == "numpad ."@ ==> windows_hook::key_code(key) == Some(0x6eu32),
        key == "numpad /"@ ==> windows_hook::key_code(key) == Some(0x6fu32),
        key == ";"@ ==> windows_hook::key_code(key) == Some(0xbau32),
        key == "="@ ==> windows_hook::key_code(key) == Some(0xbbu32),
        key == ","@ ==> windows_hook::key_code(key) == Some(0xbcu32),
        key == "-"@ ==> windows_hook::key_code(key) == Some(0xbdu32),
        key == "."@ ==> windows_hook::key_code(key) == Some(0xbeu32),
        key == "/"@ ==> windows_hook::key_code(key) == Some(0xbfu32),
        key == "`"@ ==> windows_hook::key_code(key) == Some(0xc0u32),
        key == "["@ ==> windows_hook::key_code(key) == Some(0xdbu32),
        key == "\\"@ ==> windows_hook::key_code(key) == Some(0xdcu32),
        key == "]"@ ==> windows_hook::key_code(key) == Some(0xddu32),
        key == "'"@ ==> windows_hook::key_code(key) == Some(0xdeu32),
{
    reveal_strlit("f");
    reveal_strlit("numpad ");
    reveal_strlit("backspace");
    reveal_strlit("tab");
    reveal_strlit("enter");
    reveal_strlit("return");
    reveal_strlit("pause");
    reveal_strlit("caps lock");
    reveal_strlit("capslock");
    reveal_strlit("escape");
    reveal_strlit("esc");
    reveal_strlit("space");
    reveal_strlit("page up");
    reveal_strlit("pageup");
    reveal_strlit("page down");
    reveal_strlit("pagedown");
    reveal_strlit("end");
    reveal_strlit("home");
    reveal_strlit("left");
    reveal_strlit("arrow left");
    reveal_strlit("up");
    reveal_strlit("arrow up");
    reveal_strlit("right");
    reveal_strlit("arrow right");
    reveal_strlit("down");
    reveal_strlit("arrow down");
    reveal_strlit("print screen");
    reveal_strlit("printscreen");
    reveal_strlit("insert");
    reveal_strlit("delete");
    reveal_strlit("del");
    reveal_strlit("menu");
    reveal_strlit("num lock");
    reveal_strlit("numlock");
    reveal_strlit("scroll lock");
    reveal_strlit("scrolllock");
    reveal_strlit("numpad *");
    reveal_strlit("numpad +");
    reveal_strlit("numpad -");
    reveal_strlit("numpad .");
    reveal_strlit("numpad /");
    reveal_strlit(";");
    reveal_strlit("=");
    reveal_strlit(",");
    reveal_strlit("-");
    reveal_strlit(".");
    reveal_strlit("/");
    reveal_strlit("`");
    reveal_strlit("[");
    reveal_strlit("\\");
    reveal_strlit("]");
    reveal_strlit("'");
    assert("backspace"@.len() == 9);
    assert("tab"@.len() == 3);
    assert("enter"@.len() == 5);
    assert("return"@.len() == 6);
    assert("pause"@.len() == 5);
    assert("caps lock"@.len() == 9);
    assert("capslock"@.len() == 8);
    assert("escape"@.len() == 6);
    assert("esc"@.len() == 3);
    assert("space"@.len() == 5);
    assert("page up"@.len() == 7);
    assert("pageup"@.len() == 6);
    assert("page down"@.len() == 9);
    assert("pagedown"@.len() == 8);
    assert("end"@.len() == 3);
    assert("home"@.len() == 4);
    assert("left"@.len() == 4);
    assert("arrow left"@.len() == 10);
    assert("up"@.len() == 2);
    assert("arrow up"@.len() == 8);
    assert("right"@.len() == 5);
    assert("arrow right"@.len() == 11);
    assert("down"@.len() == 4);
    assert("arrow down"@.len() == 10);
    assert("print screen"@.len() == 12);
    assert("printscreen"@.len() == 11);
    assert("insert"@.len() == 6);
    assert("delete"@.len() == 6);
    assert("del"@.len() == 3);
    assert("menu"@.len() == 4);
    assert("num lock"@.len() == 8);
    assert("numlock"@.len() == 7);
    assert("scroll lock"@.len() == 11);
    assert("scrolllock"@.len() == 10);
    assert("numpad *"@.len() == 8);
    assert("numpad +"@.len() == 8);
    assert("numpad -"@.len() == 8);
    assert("numpad ."@.len() == 8);
    assert("numpad /"@.len() == 8);
    assert(";"@.len() == 1);
    assert("="@.len() == 1);
    assert(","@.len() == 1);
    assert("-"@.len() == 1);
    assert("."@.len() == 1);
    assert("/"@.len() == 1);
    assert("`"@.len() == 1);
    assert("["@.len() == 1);
    assert("\\"@.len() == 1);
    assert("]"@.len() == 1);
    assert("'"@.len() == 1);
    assert("backspace"@[0] == 'b');
    assert("caps lock"@[0] == 'c');
    assert("page down"@[0] == 'p');
    assert("tab"@[1] == 'a');
    assert("esc"@[1] == 's');
    assert("end"@[1] == 'n');
    assert("del"@[1] == 'e');
    assert("enter"@[0] == 'e');
    assert("pause"@[0] == 'p');
    assert("space"@[0] == 's');
    assert("right"@[0] == 'r');
    assert("return"@[0] == 'r');
    assert("escape"@[0] == 'e');
    assert("pageup"@[0] == 'p');
    assert("insert"@[0] == 'i');
    assert("delete"@[0] == 'd');
    assert("capslock"@[7] == 'k');
    assert("capslock"@[0] == 'c');
    assert("pagedown"@[7] == 'n');
    assert("pagedown"@[0] == 'p');
    assert("arrow up"@[7] == 'p');
    assert("arrow up"@[0] == 'a');
    assert("num lock"@[7] == 'k');
    assert("num lock"@[0] == 'n');
    assert("numpad *"@[7] == '*');
    assert("numpad *"@[0] == 'n');
    assert("numpad +"@[7] == '+');
    assert("numpad +"@[0] == 'n');
    assert("numpad -"@[7] == '-');
    assert("numpad -"@[0] == 'n');
    assert("numpad ."@[7] == '.');
    assert("numpad ."@[0] == 'n');
    assert("numpad /"@[7] == '/');
    assert("numpad /"@[0] == 'n');
    assert("page up"@[0] == 'p');
    assert("numlock"@[0] == 'n');
    assert("home"@[0] == 'h');
    assert("left"@[0] == 'l');
    assert("down"@[0] == 'd');
    assert("menu"@[0] == 'm');
    assert("arrow left"@[8] == 'f');
    assert("arrow down"@[8] == 'w');
    assert("scrolllock"@[8] == 'c');
    assert("arrow right"@[0] == 'a');
    assert("printscreen"@[0] == 'p');
    assert("scroll lock"@[0] == 's');
    assert(";"@[0] == ';');
    assert("="@[0] == '=');
    assert(","@[0] == ',');
    assert("-"@[0] == '-');
    assert("."@[0] == '.');
    assert("/"@[0] == '/');
    assert("`"@[0] == '`');
    assert("["@[0] == '[');
    assert("\\"@[0] == '\\');
    assert("]"@[0] == ']');
    assert("'"@[0] == '\'');
    if key.len() > 1 && windows_hook::named_key(key) is Some {
        lemma_name_is_no_number(key);
    }
    if key.len() == 1 && windows_hook::named_key(key) is Some {
        if let Some(rest) = text::strip_prefix(key, "f"@) {
            crate::laws::text::lemma_prefix_stripped(key, "f"@, rest);
            assert(("f"@ + rest)[0] == 'f');
        }
        if let Some(rest) = text::strip_prefix(key, "numpad "@) {
            crate::laws::text::lemma_prefix_stripped(key, "numpad "@, rest);
        }
    }
}

/// A text names a key only where it is a letter, a digit, one of the names, or a number
/// behind the letter f or behind the word for the number pad.
pub proof fn lemma_only_these_keys(key: Seq<char>)
    ensures
        windows_hook::key_code(key) is Some ==> {
            ||| key.len() == 1 && (97 <= key[0] as int <= 122 || 65 <= key[0] as int <= 90 || 48
                <= key[0] as int <= 57)
            ||| exists|number: Seq<char>|
                #![trigger "f"@ + number]
                key == "f"@ + number && (text::u32_value(number) matches Some(n) && 1 <= n <= 24)
            ||| exists|number: Seq<char>|
                #![trigger "numpad "@ + number]
                key == "numpad "@ + number && (text::u32_value(number) matches Some(n) && n <= 9)
            ||| key == "backspace"@ || key == "tab"@ || key == "enter"@ || key == "return"@
            ||| key == "pause"@ || key == "caps lock"@ || key == "capslock"@ || key == "escape"@
            ||| key == "esc"@ || key == "space"@ || key == "page up"@ || key == "pageup"@
            ||| key == "page down"@ || key == "pagedown"@ || key == "end"@ || key == "home"@
            ||| key == "left"@ || key == "arrow left"@ || key == "up"@ || key == "arrow up"@
            ||| key == "right"@ || key == "arrow right"@ || key == "down"@ || key == "arrow down"@
            ||| key == "print screen"@ || key == "printscreen"@ || key == "insert"@ || key == "delete"@
            ||| key == "del"@ || key == "menu"@ || key == "num lock"@ || key == "numlock"@
            ||| key == "scroll lock"@ || key == "scrolllock"@ || key == "numpad *"@ || key == "numpad +"@
            ||| key == "numpad -"@ || key == "numpad ."@ || key == "numpad /"@ || key == ";"@
            ||| key == "="@ || key == ","@ || key == "-"@ || key == "."@
            ||| key == "/"@ || key == "`"@ || key == "["@ || key == "\\"@
            ||| key == "]"@ || key == "'"@
        },
{
    if let Some(number) = text::strip_prefix(key, "f"@) {
        crate::laws::text::lemma_prefix_stripped(key, "f"@, number);
    }
    if let Some(number) = text::strip_prefix(key, "numpad "@) {
        crate::laws::text::lemma_prefix_stripped(key, "numpad "@, number);
    }
}

/// A shortcut is held where each modifier is held, on either side, exactly where it is
/// asked for, and its key is held, if it has one.
pub proof fn lemma_held_means(shortcut: ParsedShortcut, held: Set<u32>)
    ensures
        shortcut.held_by(held) <==> {
            &&& shortcut.ctrl <==> held.contains(0x11) || held.contains(0xa2) || held.contains(0xa3)
            &&& shortcut.alt <==> held.contains(0x12) || held.contains(0xa4) || held.contains(0xa5)
            &&& shortcut.shift <==> held.contains(0x10) || held.contains(0xa0) || held.contains(
                0xa1,
            )
            &&& shortcut.meta <==> held.contains(0x5b) || held.contains(0x5c)
            &&& match shortcut.key {
                Some(0x11) => shortcut.ctrl,
                Some(0x12) => shortcut.alt,
                Some(0x10) => shortcut.shift,
                Some(key) => held.contains(key),
                None => true,
            }
        },
{
}

/// What is said of a shortcut that is refused names what is wrong with it.
pub proof fn lemma_refusals_said(raw: Seq<char>, key: Seq<char>)
    ensures
        windows_hook::unsupported_key_message(key) == "Unsupported Windows low-level hook key: '"@
            + key + "'"@,
        windows_hook::second_key_message(raw) == "Only one non-modifier key is supported: '"@ + raw
            + "'"@,
        windows_hook::fn_key_message()
            == "The fn key is not available to the Windows low-level hook"@,
        windows_hook::no_keys_message() == "Shortcut cannot be empty"@,
{
}

proof fn lemma_read_first_refused(
    raw: Seq<char>,
    parts: Seq<Seq<char>>,
    found: ParsedShortcut,
    i: int,
)
    requires
        0 <= i < parts.len(),
        forall|j: int|
            0 <= j < i ==> !#[trigger] grammar::is_kind(parts, j, PartKind::Function),
        forall|j: int|
            0 <= j < i && #[trigger] grammar::is_kind(parts, j, PartKind::Key)
                ==> windows_hook::key_code(windows_hook::normalized(parts[j])) is Some,
        forall|j: int, k: int|
            0 <= j < k < i ==> !(#[trigger] grammar::is_kind(parts, j, PartKind::Key)
                && #[trigger] grammar::is_kind(parts, k, PartKind::Key)),
        found.key is Some ==> forall|j: int|
            0 <= j < i ==> !#[trigger] grammar::is_kind(parts, j, PartKind::Key),
        windows_hook::normalized(parts[i]).len() > 0,
    ensures
        ({
            let part = windows_hook::normalized(parts[i]);
            let read = windows_hook::read_parts(raw, parts, found);
            let earlier = found.key is Some || exists|j: int|
                0 <= j < i && #[trigger] grammar::is_kind(parts, j, PartKind::Key);
            match windows_hook::part_kind(part) {
                PartKind::Function => read == Err::<ParsedShortcut, Seq<char>>(
                    windows_hook::fn_key_message(),
                ),
                PartKind::Key => if earlier {
                    read == Err::<ParsedShortcut, Seq<char>>(windows_hook::second_key_message(raw))
                } else {
                    windows_hook::key_code(part) is None ==> read == Err::<
                        ParsedShortcut,
                        Seq<char>,
                    >(windows_hook::unsupported_key_message(part))
                },
                _ => true,
            }
        }),
    decreases i,
{
    if i > 0 {
        let rest = parts.skip(1);
        let first = windows_hook::normalized(parts[0]);
        assert(rest[i - 1] == parts[i]);
        assert forall|j: int| 0 <= j < rest.len() implies #[trigger] grammar::is_kind(
            rest,
            j,
            PartKind::Key,
        ) == grammar::is_kind(parts, j + 1, PartKind::Key) && grammar::is_kind(
            rest,
            j,
            PartKind::Function,
        ) == grammar::is_kind(parts, j + 1, PartKind::Function) && rest[j] == parts[j + 1] by {}
        assert forall|j: int| 0 <= j < i - 1 implies !#[trigger] grammar::is_kind(
            rest,
            j,
            PartKind::Function,
        ) by {
            assert(rest[j] == parts[j + 1]);
            assert(!grammar::is_kind(parts, j + 1, PartKind::Function));
        }
        assert forall|j: int|
            0 <= j < i - 1 && #[trigger] grammar::is_kind(
                rest,
                j,
                PartKind::Key,
            ) implies windows_hook::key_code(windows_hook::normalized(rest[j])) is Some by {
            assert(rest[j] == parts[j + 1]);
            assert(grammar::is_kind(parts, j + 1, PartKind::Key));
        }
        assert forall|j: int, k: int| 0 <= j < k < i - 1 implies !(#[trigger] grammar::is_kind(
            rest,
            j,
            PartKind::Key,
        ) && #[trigger] grammar::is_kind(rest, k, PartKind::Key)) by {
            assert(rest[j] == parts[j + 1]);
            assert(rest[k] == parts[k + 1]);
            assert(!(grammar::is_kind(parts, j + 1, PartKind::Key) && grammar::is_kind(
                parts,
                k + 1,
                PartKind::Key,
            )));
        }
        assert(!grammar::is_kind(parts, 0, PartKind::Function));
        let next = if first.len() == 0 {
            found
        } else {
            match windows_hook::part_kind(first) {
                PartKind::Ctrl => ParsedShortcut { ctrl: true, ..found },
                PartKind::Alt => ParsedShortcut { alt: true, ..found },
                PartKind::Shift => ParsedShortcut { shift: true, ..found },
                PartKind::Meta => ParsedShortcut { meta: true, ..found },
                PartKind::Function => found,
                PartKind::Key => ParsedShortcut { key: windows_hook::key_code(first), ..found },
            }
        };
        if first.len() > 0 && windows_hook::part_kind(first) is Key {
            assert(grammar::is_kind(parts, 0, PartKind::Key));
        }
        assert forall|j: int| 0 <= j < i - 1 && next.key is Some implies !#[trigger] grammar::is_kind(
            rest,
            j,
            PartKind::Key,
        ) by {
            assert(rest[j] == parts[j + 1]);
            assert(grammar::is_kind(rest, j, PartKind::Key) == grammar::is_kind(
                parts,
                j + 1,
                PartKind::Key,
            ));
            if found.key is Some {
                assert(!grammar::is_kind(parts, j + 1, PartKind::Key));
            } else {
                assert(grammar::is_kind(parts, 0, PartKind::Key));
            }
        }
        assert(windows_hook::read_parts(raw, parts, found) == windows_hook::read_parts(
            raw,
            rest,
            next,
        ));
        lemma_read_first_refused(raw, rest, next, i - 1);
        if exists|j: int| 0 <= j < i && #[trigger] grammar::is_kind(parts, j, PartKind::Key) {
            let j = choose|j: int|
                0 <= j < i && #[trigger] grammar::is_kind(parts, j, PartKind::Key);
            if j > 0 {
                assert(rest[j - 1] == parts[j]);
                assert(grammar::is_kind(rest, j - 1, PartKind::Key));
            }
        }
        if exists|j: int| 0 <= j < i - 1 && #[trigger] grammar::is_kind(rest, j, PartKind::Key) {
            let j = choose|j: int|
                0 <= j < i - 1 && #[trigger] grammar::is_kind(rest, j, PartKind::Key);
            assert(rest[j] == parts[j + 1]);
            assert(grammar::is_kind(parts, j + 1, PartKind::Key));
        }
    }
}

/// The first part that is wrong decides what is said of a shortcut: that the fn key is
/// not available, that there is a second key, or that the key is not known.
pub proof fn lemma_first_refused(raw: Seq<char>, i: int)
    requires
        ({
            let parts = windows_hook::split_parts(raw);
            &&& 0 <= i < parts.len()
            &&& forall|j: int|
                0 <= j < i ==> !#[trigger] grammar::is_kind(parts, j, PartKind::Function)
            &&& forall|j: int|
                0 <= j < i && #[trigger] grammar::is_kind(parts, j, PartKind::Key)
                    ==> windows_hook::key_code(windows_hook::normalized(parts[j])) is Some
            &&& forall|j: int, k: int|
                0 <= j < k < i ==> !(#[trigger] grammar::is_kind(parts, j, PartKind::Key)
                    && #[trigger] grammar::is_kind(parts, k, PartKind::Key))
            &&& windows_hook::normalized(parts[i]).len() > 0
        }),
    ensures
        ({
            let parts = windows_hook::split_parts(raw);
            let part = windows_hook::normalized(parts[i]);
            let earlier = exists|j: int|
                0 <= j < i && #[trigger] grammar::is_kind(parts, j, PartKind::Key);
            let refused = |message: Seq<char>|
                windows_hook::parsed(raw) == Err::<ParsedShortcut, Seq<char>>(message);
            match windows_hook::part_kind(part) {
                PartKind::Function => refused(
                    "The fn key is not available to the Windows low-level hook"@,
                ),
                PartKind::Key => {
                    &&& earlier ==> refused(
                        "Only one non-modifier key is supported: '"@ + raw + "'"@,
                    )
                    &&& !earlier && windows_hook::key_code(part) is None ==> refused(
                        "Unsupported Windows low-level hook key: '"@ + part + "'"@,
                    )
                },
                _ => true,
            }
        }),
{
    lemma_read_first_refused(
        raw,
        windows_hook::split_parts(raw),
        windows_hook::no_keys(),
        i,
    );
}

/// A shortcut without any part that says something is refused as empty.
pub proof fn lemma_empty_refused(raw: Seq<char>)
    requires
        forall|i: int|
            0 <= i < windows_hook::split_parts(raw).len() ==> windows_hook::normalized(
                #[trigger] windows_hook::split_parts(raw)[i],
            ).len() == 0,
    ensures
        windows_hook::parsed(raw) == Err::<ParsedShortcut, Seq<char>>(
            "Shortcut cannot be empty"@,
        ),
{
    lemma_read_nothing(raw, windows_hook::split_parts(raw), windows_hook::no_keys());
}

proof fn lemma_read_nothing(raw: Seq<char>, parts: Seq<Seq<char>>, found: ParsedShortcut)
    requires
        forall|i: int|
            0 <= i < parts.len() ==> windows_hook::normalized(#[trigger] parts[i]).len() == 0,
    ensures
        windows_hook::read_parts(raw, parts, found) == Ok::<ParsedShortcut, Seq<char>>(found),
    decreases parts.len(),
{
    if parts.len() > 0 {
        assert(windows_hook::normalized(parts[0]).len() == 0);
        assert forall|i: int| 0 <= i < parts.skip(1).len() implies windows_hook::normalized(
            #[trigger] parts.skip(1)[i],
        ).len() == 0 by {
            assert(parts.skip(1)[i] == parts[i + 1]);
        }
        lemma_read_nothing(raw, parts.skip(1), found);
    }
}

/// How any part is compared. Trimmed, with the letters of ASCII in lower case and with
/// spaces for underscores, it is `plain`. A side in front of that is left out, once, and
/// then a side behind it, once.
pub proof fn lemma_sides_left_out(
    part: Seq<char>,
    plain: Seq<char>,
    rest: Seq<char>,
    start: Seq<char>,
)
    requires
        plain.len() == text::trim(part).len(),
        forall|i: int|
            0 <= i < plain.len() ==> (#[trigger] plain[i]) as int == (if text::trim(part)[i]
                == '_' {
                32int
            } else if 65 <= text::trim(part)[i] as int <= 90 {
                text::trim(part)[i] as int + 32
            } else {
                text::trim(part)[i] as int
            }),
        plain == "left "@ + rest || plain == "right "@ + rest || (rest == plain && forall|
            other: Seq<char>,
        |
            #![trigger "left "@ + other]
            #![trigger "right "@ + other]
            plain != "left "@ + other && plain != "right "@ + other),
        rest == start + " left"@ || rest == start + " right"@ || (start == rest && forall|
            other: Seq<char>,
        |
            #![trigger other + " left"@]
            #![trigger other + " right"@]
            rest != other + " left"@ && rest != other + " right"@),
    ensures
        windows_hook::normalized(part) == start,
{
    reveal_strlit("left ");
    reveal_strlit("right ");
    reveal_strlit(" left");
    reveal_strlit(" right");
    let t = text::trim(part);
    let image = windows_hook::underscores_to_spaces(text::lower(t));
    crate::laws::text::lemma_lowered(t);
    assert forall|i: int| 0 <= i < t.len() implies image[i] == plain[i] by {
        assert(text::lower(t)[i] as int == t[i] as int + (if 65 <= t[i] as int <= 90 {
            32int
        } else {
            0int
        }));
        assert(plain[i] as int == image[i] as int);
    }
    assert(image =~= plain);
    crate::laws::text::lemma_prefix_stripped(plain, "left "@, rest);
    crate::laws::text::lemma_prefix_stripped(plain, "right "@, rest);
    if let Some(other) = text::strip_prefix(plain, "left "@) {
        crate::laws::text::lemma_prefix_stripped(plain, "left "@, other);
        if plain == "right "@ + rest {
            assert(("left "@ + other)[0] == 'l');
            assert(("right "@ + rest)[0] == 'r');
        }
    }
    if let Some(other) = text::strip_prefix(plain, "right "@) {
        crate::laws::text::lemma_prefix_stripped(plain, "right "@, other);
        if plain == "left "@ + rest {
            assert(("right "@ + other)[0] == 'r');
            assert(("left "@ + rest)[0] == 'l');
        }
    }
    crate::laws::text::lemma_suffix_stripped(rest, " left"@, start);
    crate::laws::text::lemma_suffix_stripped(rest, " right"@, start);
    if let Some(other) = text::strip_suffix(rest, " left"@) {
        crate::laws::text::lemma_suffix_stripped(rest, " left"@, other);
        if rest == start + " right"@ {
            let at = rest.len() - 4;
            assert((other + " left"@)[at] == " left"@[1]);
            assert((start + " right"@)[at] == " right"@[2]);
        }
    }
    if let Some(other) = text::strip_suffix(rest, " right"@) {
        crate::laws::text::lemma_suffix_stripped(rest, " right"@, other);
        if rest == start + " left"@ {
            let at = rest.len() - 4;
            assert((other + " right"@)[at] == " right"@[2]);
            assert((start + " left"@)[at] == " left"@[1]);
        }
    }
}

/// What the operations on shortcuts give is what is said of the text and of the keys that
/// they are given.
pub proof fn lemma_shortcut_operations(
    raw: &str,
    valid: Result<(), String>,
    read: Result<ParsedShortcut, String>,
    shortcut: &ParsedShortcut,
    held: &HashSet<u32>,
    fits: bool,
)
    requires
        call_ensures(parse_shortcut, (raw,), read),
        call_ensures(validate_shortcut, (raw,), valid),
        call_ensures(ParsedShortcut::matches, (shortcut, held), fits),
    ensures
        fits == shortcut.held_by(held@),
        match (windows_hook::parsed(raw@), read, valid) {
            (Ok(keys), Ok(found), Ok(_)) => found == keys,
            (Err(message), Err(said), Err(told)) => said@ == message && told@ == message,
            _ => false,
        },
{
}

/// A key is pressed where it is held; a control, alt or shift key also where the one on
/// either side is.
pub proof fn lemma_pressed(
    held: &HashSet<u32>,
    keys: &[u32],
    any: bool,
    key: u32,
    pressed: bool,
)
    requires
        call_ensures(any_pressed, (held, keys), any),
        call_ensures(key_pressed, (held, key), pressed),
    ensures
        any <==> exists|i: int| 0 <= i < keys@.len() && held@.contains(#[trigger] keys@[i]),
        pressed <==> {
            ||| held@.contains(key)
            ||| key == 0x11 && (held@.contains(0xa2) || held@.contains(0xa3))
            ||| key == 0x12 && (held@.contains(0xa4) || held@.contains(0xa5))
            ||| key == 0x10 && (held@.contains(0xa0) || held@.contains(0xa1))
        },
{
}

/// What the operations on the parts of shortcuts give is what is said of their text.
pub proof fn lemma_part_operations<'a>(
    raw: &'a str,
    parts: Vec<&'a str>,
    i: int,
    part: &str,
    compared: String,
    key: &str,
    code: Result<u32, String>,
    valid: Result<(), String>,
)
    requires
        call_ensures(split_shortcut_parts, (raw,), parts),
        call_ensures(normalize_part, (part,), compared),
        call_ensures(parse_key, (key,), code),
        call_ensures(interception_hook::validate_shortcut, (raw,), valid),
    ensures
        parts@.len() == windows_hook::split_parts(raw@).len(),
        0 <= i < parts@.len() ==> parts@[i]@ == windows_hook::split_parts(raw@)[i],
        compared@ == windows_hook::normalized(part@),
        match code {
            Ok(code) => windows_hook::key_code(key@) == Some(code),
            Err(said) => windows_hook::key_code(key@) is None && said@
                == "Unsupported Windows low-level hook key: '"@ + key@ + "'"@,
        },
        match valid {
            Ok(_) => windows_hook::parsed(raw@) is Ok,
            Err(said) => windows_hook::parsed(raw@) == Err::<ParsedShortcut, Seq<char>>(said@),
        },
{
    let views = parts@.map_values(|part: &str| part@);
    assert(views == windows_hook::split_parts(raw@));
    assert(views.len() == parts@.len());
    if 0 <= i < parts@.len() {
        assert(views[i] == parts@[i]@);
    }
}

} // verus!
