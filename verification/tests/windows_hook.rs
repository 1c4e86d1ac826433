use handy_core::shortcut::tracker::{RawKeyEvent, RegisteredShortcut, ShortcutTracker};
use handy_core::shortcut::windows_hook::{
    parse_shortcut, VK_ADD, VK_LCONTROL, VK_SHIFT, VK_SPACE,
};
use handy_core::table::StringTable;
use std::collections::HashSet;

fn shortcut(binding_id: &str, hotkey_string: &str) -> RegisteredShortcut {
    RegisteredShortcut {
        binding_id: binding_id.to_string(),
        hotkey_string: hotkey_string.to_string(),
        parsed: parse_shortcut(hotkey_string).unwrap(),
    }
}

fn bindings(shortcuts: &[RegisteredShortcut]) -> StringTable<RegisteredShortcut> {
    let mut table = StringTable::new();
    for shortcut in shortcuts {
        table.insert(shortcut.binding_id.clone(), shortcut.clone());
    }
    table
}

fn down(vk_code: u32) -> RawKeyEvent {
    RawKeyEvent {
        vk_code,
        is_down: true,
    }
}

fn up(vk_code: u32) -> RawKeyEvent {
    RawKeyEvent {
        vk_code,
        is_down: false,
    }
}

#[test]
fn parses_common_windows_shortcuts() {
    let parsed = parse_shortcut("ctrl+shift+space").unwrap();

    assert!(parsed.ctrl);
    assert!(parsed.shift);
    assert!(!parsed.alt);
    assert!(!parsed.meta);
    assert_eq!(parsed.key, Some(VK_SPACE));
}

#[test]
fn rejects_fn_key() {
    let err = parse_shortcut("fn+space").unwrap_err();

    assert!(err.contains("fn key"));
}

#[test]
fn parses_numpad_plus_without_splitting_it_as_separator() {
    let parsed = parse_shortcut("ctrl+numpad +").unwrap();

    assert!(parsed.ctrl);
    assert_eq!(parsed.key, Some(VK_ADD));
}

#[test]
fn matches_exact_modifier_set() {
    let ctrl_space = parse_shortcut("ctrl+space").unwrap();
    let mut pressed = HashSet::from([VK_LCONTROL, VK_SPACE]);

    assert!(ctrl_space.matches(&pressed));

    pressed.insert(VK_SHIFT);
    assert!(!ctrl_space.matches(&pressed));
}

#[test]
fn fires_once_for_held_chord_and_releases_on_key_up() {
    let shortcuts = bindings(&[shortcut("transcribe", "ctrl+space")]);
    let mut tracker = ShortcutTracker::default();

    assert!(tracker.apply(down(VK_LCONTROL), &shortcuts).is_empty());

    let pressed = tracker.apply(down(VK_SPACE), &shortcuts);
    assert_eq!(pressed.len(), 1);
    assert_eq!(pressed[0].0.binding_id, "transcribe");
    assert!(pressed[0].1);

    assert!(tracker.apply(down(VK_SPACE), &shortcuts).is_empty());

    let released = tracker.apply(up(VK_SPACE), &shortcuts);
    assert_eq!(released.len(), 1);
    assert_eq!(released[0].0.binding_id, "transcribe");
    assert!(!released[0].1);
}

#[test]
fn unregistering_active_binding_prevents_late_release() {
    let transcribe = shortcut("transcribe", "ctrl+space");
    let shortcuts = bindings(&[transcribe]);
    let mut tracker = ShortcutTracker::default();

    tracker.apply(down(VK_LCONTROL), &shortcuts);
    assert_eq!(tracker.apply(down(VK_SPACE), &shortcuts).len(), 1);

    tracker.remove_binding("transcribe");
    assert!(tracker.apply(up(VK_SPACE), &shortcuts).is_empty());
}
