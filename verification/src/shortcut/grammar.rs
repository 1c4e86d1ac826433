//! What holds of the way shortcuts are written.

use super::windows_hook;
use super::windows_hook::{ParsedShortcut, PartKind};
use crate::text;
use vstd::prelude::*;

verus! {

/// Parts put together with a plus sign between each two.
pub open spec fn join_parts(parts: Seq<Seq<char>>) -> Seq<char>
    decreases parts.len(),
{
    if parts.len() == 0 {
        Seq::empty()
    } else if parts.len() == 1 {
        parts[0]
    } else {
        parts[0] + seq!['+'] + join_parts(parts.skip(1))
    }
}

proof fn lemma_first_separator(s: Seq<char>, from: int)
    requires
        0 <= from <= s.len(),
    ensures
        from <= windows_hook::first_separator(s, from) <= s.len(),
        windows_hook::first_separator(s, from) < s.len() ==> windows_hook::separates(
            s,
            windows_hook::first_separator(s, from),
        ),
    decreases s.len() - from,
{
    if from < s.len() && !windows_hook::separates(s, from) {
        lemma_first_separator(s, from + 1);
    }
}

/// The parts of a shortcut, put together again, are the shortcut: no character is
/// lost but the plus signs between the parts.
pub proof fn lemma_parts_join(s: Seq<char>)
    ensures
        windows_hook::split_parts(s).len() >= 1,
        join_parts(windows_hook::split_parts(s)) == s,
    decreases s.len(),
{
    let i = windows_hook::first_separator(s, 0);
    lemma_first_separator(s, 0);
    if i < s.len() {
        let rest = windows_hook::split_parts(s.skip(i + 1));
        lemma_parts_join(s.skip(i + 1));
        assert(windows_hook::split_parts(s).skip(1) =~= rest);
        assert(s.take(i) + seq!['+'] + s.skip(i + 1) =~= s);
    }
}

/// Whether the part at `i` is there and is of a kind.
pub open spec fn is_kind(parts: Seq<Seq<char>>, i: int, kind: PartKind) -> bool {
    let part = windows_hook::normalized(parts[i]);
    part.len() > 0 && windows_hook::part_kind(part) == kind
}

/// Whether some part is of a kind.
pub open spec fn has_kind(parts: Seq<Seq<char>>, kind: PartKind) -> bool {
    exists|i: int| 0 <= i < parts.len() && #[trigger] is_kind(parts, i, kind)
}

/// Whether every part that names a key names a known one.
pub open spec fn keys_known(parts: Seq<Seq<char>>) -> bool {
    forall|i: int|
        0 <= i < parts.len() && #[trigger] is_kind(parts, i, PartKind::Key)
            ==> windows_hook::key_code(windows_hook::normalized(parts[i])) is Some
}

/// Whether at most one part names a key.
pub open spec fn one_key(parts: Seq<Seq<char>>) -> bool {
    forall|i: int, j: int|
        0 <= i < j < parts.len() ==> !(#[trigger] is_kind(parts, i, PartKind::Key)
            && #[trigger] is_kind(parts, j, PartKind::Key))
}

proof fn lemma_has_kind(parts: Seq<Seq<char>>, kind: PartKind)
    requires
        parts.len() > 0,
    ensures
        has_kind(parts, kind) <==> is_kind(parts, 0, kind) || has_kind(parts.skip(1), kind),
{
    let rest = parts.skip(1);
    if has_kind(parts, kind) {
        let i = choose|i: int| 0 <= i < parts.len() && #[trigger] is_kind(parts, i, kind);
        if i > 0 {
            assert(rest[i - 1] == parts[i]);
            assert(is_kind(rest, i - 1, kind));
        }
    }
    if has_kind(rest, kind) {
        let i = choose|i: int| 0 <= i < rest.len() && #[trigger] is_kind(rest, i, kind);
        assert(rest[i] == parts[i + 1]);
        assert(is_kind(parts, i + 1, kind));
    }
}

proof fn lemma_keys_known(parts: Seq<Seq<char>>)
    requires
        parts.len() > 0,
    ensures
        keys_known(parts) <==> keys_known(parts.skip(1)) && (is_kind(parts, 0, PartKind::Key)
            ==> windows_hook::key_code(windows_hook::normalized(parts[0])) is Some),
{
    let rest = parts.skip(1);
    assert forall|i: int| 0 <= i < rest.len() implies #[trigger] rest[i] == parts[i + 1]
        && is_kind(rest, i, PartKind::Key) == is_kind(parts, i + 1, PartKind::Key) by {}
    if keys_known(parts) {
        assert forall|i: int|
            0 <= i < rest.len() && #[trigger] is_kind(
                rest,
                i,
                PartKind::Key,
            ) implies windows_hook::key_code(windows_hook::normalized(rest[i])) is Some by {
            assert(rest[i] == parts[i + 1]);
            assert(is_kind(parts, i + 1, PartKind::Key));
        }
    }
    if keys_known(rest) && (is_kind(parts, 0, PartKind::Key) ==> windows_hook::key_code(
        windows_hook::normalized(parts[0]),
    ) is Some) {
        assert forall|i: int|
            0 <= i < parts.len() && #[trigger] is_kind(
                parts,
                i,
                PartKind::Key,
            ) implies windows_hook::key_code(windows_hook::normalized(parts[i])) is Some by {
            if i > 0 {
                assert(rest[i - 1] == parts[i]);
                assert(is_kind(rest, i - 1, PartKind::Key));
            }
        }
    }
}

proof fn lemma_one_key(parts: Seq<Seq<char>>)
    requires
        parts.len() > 0,
    ensures
        one_key(parts) <==> one_key(parts.skip(1)) && !(is_kind(parts, 0, PartKind::Key)
            && has_kind(parts.skip(1), PartKind::Key)),
{
    let rest = parts.skip(1);
    if one_key(parts) {
        assert forall|i: int, j: int| 0 <= i < j < rest.len() implies !(#[trigger] is_kind(
            rest,
            i,
            PartKind::Key,
        ) && #[trigger] is_kind(rest, j, PartKind::Key)) by {
            assert(rest[i] == parts[i + 1] && rest[j] == parts[j + 1]);
            assert(!(is_kind(parts, i + 1, PartKind::Key) && is_kind(
                parts,
                j + 1,
                PartKind::Key,
            )));
        }
        if has_kind(rest, PartKind::Key) {
            let j = choose|j: int| 0 <= j < rest.len() && #[trigger] is_kind(rest, j, PartKind::Key);
            assert(rest[j] == parts[j + 1]);
            assert(is_kind(parts, j + 1, PartKind::Key));
        }
    }
    if one_key(rest) && !(is_kind(parts, 0, PartKind::Key) && has_kind(rest, PartKind::Key)) {
        assert forall|i: int, j: int| 0 <= i < j < parts.len() implies !(#[trigger] is_kind(
            parts,
            i,
            PartKind::Key,
        ) && #[trigger] is_kind(parts, j, PartKind::Key)) by {
            assert(rest[j - 1] == parts[j]);
            if is_kind(parts, j, PartKind::Key) {
                assert(is_kind(rest, j - 1, PartKind::Key));
                if i > 0 {
                    assert(rest[i - 1] == parts[i]);
                    assert(!(is_kind(rest, i - 1, PartKind::Key) && is_kind(
                        rest,
                        j - 1,
                        PartKind::Key,
                    )));
                }
            }
        }
    }
}

/// Whether every part can be read after some keys were found.
pub open spec fn readable(parts: Seq<Seq<char>>, found: ParsedShortcut) -> bool {
    &&& !has_kind(parts, PartKind::Function)
    &&& keys_known(parts)
    &&& one_key(parts)
    &&& found.key is Some ==> !has_kind(parts, PartKind::Key)
}

proof fn lemma_read_parts(raw: Seq<char>, parts: Seq<Seq<char>>, found: ParsedShortcut)
    ensures
        ({
            let read = windows_hook::read_parts(raw, parts, found);
            &&& read is Ok <==> readable(parts, found)
            &&& read matches Ok(shortcut) ==> {
                &&& shortcut.ctrl == (found.ctrl || has_kind(parts, PartKind::Ctrl))
                &&& shortcut.alt == (found.alt || has_kind(parts, PartKind::Alt))
                &&& shortcut.shift == (found.shift || has_kind(parts, PartKind::Shift))
                &&& shortcut.meta == (found.meta || has_kind(parts, PartKind::Meta))
                &&& !has_kind(parts, PartKind::Key) ==> shortcut.key == found.key
                &&& forall|i: int|
                    0 <= i < parts.len() && #[trigger] is_kind(parts, i, PartKind::Key)
                        ==> shortcut.key == windows_hook::key_code(
                        windows_hook::normalized(parts[i]),
                    )
            }
        }),
    decreases parts.len(),
{
    if parts.len() > 0 {
        let part = windows_hook::normalized(parts[0]);
        let rest = parts.skip(1);
        lemma_has_kind(parts, PartKind::Ctrl);
        lemma_has_kind(parts, PartKind::Alt);
        lemma_has_kind(parts, PartKind::Shift);
        lemma_has_kind(parts, PartKind::Meta);
        lemma_has_kind(parts, PartKind::Function);
        lemma_has_kind(parts, PartKind::Key);
        lemma_keys_known(parts);
        lemma_one_key(parts);
        assert(forall|i: int| 0 <= i < rest.len() ==> #[trigger] rest[i] == parts[i + 1]);
        let next = if part.len() == 0 {
            found
        } else {
            match windows_hook::part_kind(part) {
                PartKind::Ctrl => ParsedShortcut { ctrl: true, ..found },
                PartKind::Alt => ParsedShortcut { alt: true, ..found },
                PartKind::Shift => ParsedShortcut { shift: true, ..found },
                PartKind::Meta => ParsedShortcut { meta: true, ..found },
                PartKind::Function => found,
                PartKind::Key => ParsedShortcut { key: windows_hook::key_code(part), ..found },
            }
        };
        lemma_read_parts(raw, rest, next);
        let read = windows_hook::read_parts(raw, parts, found);
        if read is Ok {
            assert(read == windows_hook::read_parts(raw, rest, next));
            assert forall|i: int|
                0 <= i < parts.len() && #[trigger] is_kind(parts, i, PartKind::Key) implies (
            read->Ok_0).key == windows_hook::key_code(windows_hook::normalized(parts[i])) by {
                if i > 0 {
                    assert(rest[i - 1] == parts[i]);
                    assert(is_kind(rest, i - 1, PartKind::Key));
                }
            }
        }
    }
}

/// A shortcut is accepted exactly where no part is the fn key, every part that names
/// a key names a known one, at most one part does, and some part is not empty. What
/// it then asks for is each modifier that one of its parts names, and the key that
/// one of them names.
pub proof fn lemma_accepted(raw: Seq<char>)
    ensures
        ({
            let parts = windows_hook::split_parts(raw);
            &&& windows_hook::parsed(raw) is Ok <==> {
                &&& !has_kind(parts, PartKind::Function)
                &&& keys_known(parts)
                &&& one_key(parts)
                &&& exists|i: int|
                    0 <= i < parts.len() && #[trigger] windows_hook::normalized(parts[i]).len() > 0
            }
            &&& windows_hook::parsed(raw) matches Ok(shortcut) ==> {
                &&& shortcut.ctrl == has_kind(parts, PartKind::Ctrl)
                &&& shortcut.alt == has_kind(parts, PartKind::Alt)
                &&& shortcut.shift == has_kind(parts, PartKind::Shift)
                &&& shortcut.meta == has_kind(parts, PartKind::Meta)
                &&& shortcut.key is Some == has_kind(parts, PartKind::Key)
                &&& forall|i: int|
                    0 <= i < parts.len() && #[trigger] is_kind(parts, i, PartKind::Key)
                        ==> shortcut.key == windows_hook::key_code(
                        windows_hook::normalized(parts[i]),
                    )
            }
        }),
{
    let parts = windows_hook::split_parts(raw);
    lemma_read_parts(raw, parts, windows_hook::no_keys());
    let read = windows_hook::read_parts(raw, parts, windows_hook::no_keys());
    if read is Ok {
        if has_kind(parts, PartKind::Key) {
            let i = choose|i: int| 0 <= i < parts.len() && #[trigger] is_kind(parts, i, PartKind::Key);
            assert(windows_hook::key_code(windows_hook::normalized(parts[i])) is Some);
        }
        if exists|i: int|
            0 <= i < parts.len() && #[trigger] windows_hook::normalized(parts[i]).len() > 0 {
            let i = choose|i: int|
                0 <= i < parts.len() && #[trigger] windows_hook::normalized(parts[i]).len() > 0;
            let kind = windows_hook::part_kind(windows_hook::normalized(parts[i]));
            assert(is_kind(parts, i, kind));
            assert(has_kind(parts, kind));
        }
    }
}

proof fn lemma_lower_twice(s: Seq<char>)
    ensures
        text::lower(text::lower(s)) == text::lower(s),
{
    assert(text::lower(text::lower(s)) =~= text::lower(s));
}

proof fn lemma_lower_trim_start(s: Seq<char>)
    ensures
        text::trim_start(text::lower(s)) == text::lower(text::trim_start(s)),
    decreases s.len(),
{
    if s.len() > 0 {
        assert(text::lower(s).drop_first() =~= text::lower(s.drop_first()));
        lemma_lower_trim_start(s.drop_first());
    }
}

proof fn lemma_lower_trim_end(s: Seq<char>)
    ensures
        text::trim_end(text::lower(s)) == text::lower(text::trim_end(s)),
    decreases s.len(),
{
    if s.len() > 0 {
        assert(text::lower(s).drop_last() =~= text::lower(s.drop_last()));
        lemma_lower_trim_end(s.drop_last());
    }
}

proof fn lemma_lower_normalized(part: Seq<char>)
    ensures
        windows_hook::normalized(text::lower(part)) == windows_hook::normalized(part),
{
    lemma_lower_trim_start(part);
    lemma_lower_trim_end(text::trim_start(part));
    lemma_lower_twice(text::trim(part));
}

proof fn lemma_lower_separates(s: Seq<char>, i: int)
    requires
        0 <= i < s.len(),
    ensures
        windows_hook::separates(text::lower(s), i) == windows_hook::separates(s, i),
{
    assert(text::lower(s).take(i) =~= text::lower(s.take(i)));
    lemma_lower_trim_end(s.take(i));
    lemma_lower_twice(text::trim_end(s.take(i)));
}

proof fn lemma_lower_first_separator(s: Seq<char>, from: int)
    requires
        0 <= from <= s.len(),
    ensures
        windows_hook::first_separator(text::lower(s), from) == windows_hook::first_separator(
            s,
            from,
        ),
    decreases s.len() - from,
{
    if from < s.len() {
        lemma_lower_separates(s, from);
        lemma_lower_first_separator(s, from + 1);
    }
}

proof fn lemma_lower_split(s: Seq<char>)
    ensures
        windows_hook::split_parts(text::lower(s)) == windows_hook::split_parts(s).map_values(
            |part: Seq<char>| text::lower(part),
        ),
    decreases s.len(),
{
    let i = windows_hook::first_separator(s, 0);
    lemma_first_separator(s, 0);
    lemma_lower_first_separator(s, 0);
    let low = text::lower(s);
    let lowered = windows_hook::split_parts(s).map_values(|part: Seq<char>| text::lower(part));
    if i < s.len() {
        assert(low.take(i) =~= text::lower(s.take(i)));
        assert(low.skip(i + 1) =~= text::lower(s.skip(i + 1)));
        lemma_lower_split(s.skip(i + 1));
        assert(lowered =~= seq![text::lower(s.take(i))] + windows_hook::split_parts(
            s.skip(i + 1),
        ).map_values(|part: Seq<char>| text::lower(part)));
    } else {
        assert(lowered =~= seq![low]);
    }
}

proof fn lemma_read_same_parts(
    raw: Seq<char>,
    other: Seq<char>,
    parts: Seq<Seq<char>>,
    lowered: Seq<Seq<char>>,
    found: ParsedShortcut,
)
    requires
        lowered == parts.map_values(|part: Seq<char>| text::lower(part)),
    ensures
        windows_hook::read_parts(raw, parts, found) is Ok || windows_hook::read_parts(
            other,
            lowered,
            found,
        ) is Ok ==> windows_hook::read_parts(raw, parts, found) == windows_hook::read_parts(
            other,
            lowered,
            found,
        ),
    decreases parts.len(),
{
    if parts.len() > 0 {
        lemma_lower_normalized(parts[0]);
        assert(lowered[0] == text::lower(parts[0]));
        assert(lowered.skip(1) =~= parts.skip(1).map_values(|part: Seq<char>| text::lower(part)));
        let part = windows_hook::normalized(parts[0]);
        let next = if part.len() == 0 {
            found
        } else {
            match windows_hook::part_kind(part) {
                PartKind::Ctrl => ParsedShortcut { ctrl: true, ..found },
                PartKind::Alt => ParsedShortcut { alt: true, ..found },
                PartKind::Shift => ParsedShortcut { shift: true, ..found },
                PartKind::Meta => ParsedShortcut { meta: true, ..found },
                PartKind::Function => found,
                PartKind::Key => ParsedShortcut { key: windows_hook::key_code(part), ..found },
            }
        };
        lemma_read_same_parts(raw, other, parts.skip(1), lowered.skip(1), next);
    }
}

/// Shortcuts that differ in the case of ASCII letters alone are accepted or refused
/// together, and ask for the same keys.
pub proof fn lemma_case_ignored(a: Seq<char>, b: Seq<char>)
    requires
        text::lower(a) == text::lower(b),
    ensures
        windows_hook::parsed(a) is Ok <==> windows_hook::parsed(b) is Ok,
        windows_hook::parsed(a) is Ok ==> windows_hook::parsed(a) == windows_hook::parsed(b),
{
    let low = text::lower(a);
    lemma_lower_split(a);
    lemma_lower_split(b);
    lemma_read_same_parts(
        a,
        low,
        windows_hook::split_parts(a),
        windows_hook::split_parts(low),
        windows_hook::no_keys(),
    );
    lemma_read_same_parts(
        b,
        low,
        windows_hook::split_parts(b),
        windows_hook::split_parts(low),
        windows_hook::no_keys(),
    );
}

/// The keys of a shortcut: one for each modifier, and the key that is none.
pub open spec fn keys_of(shortcut: ParsedShortcut) -> Set<u32> {
    Set::new(
        |key: u32|
            {
                ||| shortcut.ctrl && key == windows_hook::VK_CONTROL
                ||| shortcut.alt && key == windows_hook::VK_MENU
                ||| shortcut.shift && key == windows_hook::VK_SHIFT
                ||| shortcut.meta && key == windows_hook::VK_LWIN
                ||| shortcut.key == Some(key)
            },
    )
}

/// Whether a code is that of a modifier key.
pub open spec fn is_modifier(key: u32) -> bool {
    let one = Set::<u32>::empty().insert(key);
    windows_hook::ctrl_held(one) || windows_hook::alt_held(one) || windows_hook::shift_held(one)
        || windows_hook::meta_held(one)
}

proof fn lemma_key_is_no_modifier(key: Seq<char>)
    ensures
        windows_hook::key_code(key) matches Some(code) ==> !is_modifier(code),
{
}

proof fn lemma_read_no_modifier(raw: Seq<char>, parts: Seq<Seq<char>>, found: ParsedShortcut)
    requires
        found.key matches Some(code) ==> !is_modifier(code),
    ensures
        windows_hook::read_parts(raw, parts, found) matches Ok(shortcut) ==> (
        shortcut.key matches Some(code) ==> !is_modifier(code)),
    decreases parts.len(),
{
    if parts.len() > 0 {
        let part = windows_hook::normalized(parts[0]);
        lemma_key_is_no_modifier(part);
        let next = if part.len() == 0 {
            found
        } else {
            match windows_hook::part_kind(part) {
                PartKind::Ctrl => ParsedShortcut { ctrl: true, ..found },
                PartKind::Alt => ParsedShortcut { alt: true, ..found },
                PartKind::Shift => ParsedShortcut { shift: true, ..found },
                PartKind::Meta => ParsedShortcut { meta: true, ..found },
                PartKind::Function => found,
                PartKind::Key => ParsedShortcut { key: windows_hook::key_code(part), ..found },
            }
        };
        lemma_read_no_modifier(raw, parts.skip(1), next);
    }
}

/// Whoever holds down the keys of an accepted shortcut, and nothing else, holds the
/// shortcut.
pub proof fn lemma_accepted_can_be_held(raw: Seq<char>)
    ensures
        windows_hook::parsed(raw) matches Ok(shortcut) ==> shortcut.held_by(keys_of(shortcut)),
{
    lemma_read_no_modifier(raw, windows_hook::split_parts(raw), windows_hook::no_keys());
}

/// A further modifier that a shortcut does not ask for keeps it from being held, and
/// a further key that is no modifier does not.
pub proof fn lemma_further_key(shortcut: ParsedShortcut, held: Set<u32>, key: u32)
    requires
        shortcut.held_by(held),
    ensures
        ({
            let one = Set::<u32>::empty().insert(key);
            let asked = {
                &&& windows_hook::ctrl_held(one) ==> shortcut.ctrl
                &&& windows_hook::alt_held(one) ==> shortcut.alt
                &&& windows_hook::shift_held(one) ==> shortcut.shift
                &&& windows_hook::meta_held(one) ==> shortcut.meta
            };
            shortcut.held_by(held.insert(key)) <==> asked
        }),
{
}

} // verus!
