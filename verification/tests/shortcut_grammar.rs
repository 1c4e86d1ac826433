use handy_core::shortcut::windows_hook::{
    any_pressed, install_failed, key_pressed, low_level_keyboard_message, low_level_keyboard_steps, normalize_part,
    parse_key, parse_shortcut, split_shortcut_parts, validate_shortcut, KeyboardStep, ParsedShortcut, HC_ACTION,
    VK_ADD, VK_APPS, VK_CONTROL, VK_DIVIDE, VK_F1, VK_LCONTROL, VK_LMENU, VK_LSHIFT, VK_LWIN,
    VK_MENU, VK_NUMPAD0, VK_OEM_5, VK_PRIOR, VK_RCONTROL, VK_RETURN, VK_RMENU, VK_RSHIFT, VK_RWIN,
    VK_SHIFT, VK_SPACE, WM_KEYDOWN, WM_KEYUP, WM_SYSKEYDOWN, WM_SYSKEYUP,
};
use std::collections::HashSet;

#[test]
fn splits_at_plus_signs_but_not_behind_numpad() {
    assert_eq!(split_shortcut_parts("ctrl+a"), vec!["ctrl", "a"]);
    assert_eq!(split_shortcut_parts(""), vec![""]);
    assert_eq!(split_shortcut_parts("+"), vec!["", ""]);
    assert_eq!(split_shortcut_parts("numpad +"), vec!["numpad +"]);
    assert_eq!(split_shortcut_parts("NumPad+"), vec!["NumPad+"]);
    assert_eq!(
        split_shortcut_parts("shift+numpad ++a"),
        vec!["shift", "numpad +", "a"]
    );
    assert_eq!(split_shortcut_parts(" numpad+"), vec![" numpad", ""]);
    assert_eq!(split_shortcut_parts("\u{e4}+b"), vec!["\u{e4}", "b"]);
}

#[test]
fn parts_put_together_give_the_shortcut() {
    for raw in ["ctrl+alt+numpad +", "a", "", "++", "numpad ++numpad +"] {
        assert_eq!(split_shortcut_parts(raw).join("+"), raw);
    }
}

#[test]
fn normalizes_parts() {
    assert_eq!(normalize_part("  Left_Shift "), "shift");
    assert_eq!(normalize_part("ctrl right"), "ctrl");
    assert_eq!(normalize_part("right alt left"), "alt");
    assert_eq!(normalize_part("Page_Up"), "page up");
    assert_eq!(normalize_part("left"), "left");
    assert_eq!(normalize_part("left left"), "left");
    assert_eq!(normalize_part("arrow_left"), "arrow");
    assert_eq!(normalize_part("\u{c4}"), "\u{c4}");
}

#[test]
fn looks_up_keys() {
    assert_eq!(parse_key("a"), Ok(0x41));
    assert_eq!(parse_key("Z"), Ok(0x5a));
    assert_eq!(parse_key("7"), Ok(0x37));
    assert_eq!(parse_key("f"), Ok(0x46));
    assert_eq!(parse_key("f1"), Ok(VK_F1));
    assert_eq!(parse_key("f24"), Ok(VK_F1 + 23));
    assert_eq!(parse_key("f+5"), Ok(VK_F1 + 4));
    assert_eq!(parse_key("numpad 0"), Ok(VK_NUMPAD0));
    assert_eq!(parse_key("numpad 9"), Ok(VK_NUMPAD0 + 9));
    assert_eq!(parse_key("numpad +"), Ok(VK_ADD));
    assert_eq!(parse_key("numpad /"), Ok(VK_DIVIDE));
    assert_eq!(parse_key("return"), Ok(VK_RETURN));
    assert_eq!(parse_key("pageup"), Ok(VK_PRIOR));
    assert_eq!(parse_key("menu"), Ok(VK_APPS));
    assert_eq!(parse_key("\\"), Ok(VK_OEM_5));
    for unknown in ["f0", "f25", "numpad 10", "numpad", "", "ab", "\u{e4}", "#"] {
        assert_eq!(
            parse_key(unknown),
            Err(format!("Unsupported Windows low-level hook key: '{}'", unknown))
        );
    }
}

#[test]
fn refuses_shortcuts_with_a_message() {
    assert_eq!(
        parse_shortcut(""),
        Err("Shortcut cannot be empty".to_string())
    );
    assert_eq!(
        parse_shortcut(" + "),
        Err("Shortcut cannot be empty".to_string())
    );
    assert_eq!(
        parse_shortcut("a+b"),
        Err("Only one non-modifier key is supported: 'a+b'".to_string())
    );
    assert_eq!(
        parse_shortcut("Ctrl+Hyper"),
        Err("Unsupported Windows low-level hook key: 'hyper'".to_string())
    );
    assert_eq!(
        parse_shortcut("function+a"),
        Err("The fn key is not available to the Windows low-level hook".to_string())
    );
    assert_eq!(
        validate_shortcut("arrow_left"),
        Err("Unsupported Windows low-level hook key: 'arrow'".to_string())
    );
    assert_eq!(validate_shortcut("win"), Ok(()));
}

#[test]
fn reads_modifiers_under_all_their_names() {
    let all = ParsedShortcut {
        ctrl: true,
        alt: true,
        shift: true,
        meta: true,
        key: None,
    };
    for raw in [
        "ctrl+alt+shift+cmd",
        "control+option+shift+command",
        "Left Ctrl+Right_Alt+shift_left+super",
        "ctrl+alt+shift+win",
        "ctrl+alt+shift+windows",
        "ctrl+alt+shift+meta+ctrl",
    ] {
        assert_eq!(parse_shortcut(raw), Ok(all));
    }
}

#[test]
fn case_does_not_matter() {
    assert_eq!(
        parse_shortcut("CTRL+Numpad ++SHIFT"),
        parse_shortcut("ctrl+numpad ++shift")
    );
    assert_eq!(parse_shortcut("Ctrl+A"), parse_shortcut("ctrl+a"));
}

#[test]
fn modifiers_count_on_either_side() {
    for key in [VK_CONTROL, VK_LCONTROL, VK_RCONTROL] {
        assert!(key_pressed(&HashSet::from([key]), VK_CONTROL));
        assert!(parse_shortcut("ctrl").unwrap().matches(&HashSet::from([key])));
    }
    for key in [VK_MENU, VK_LMENU, VK_RMENU] {
        assert!(key_pressed(&HashSet::from([key]), VK_MENU));
        assert!(parse_shortcut("alt").unwrap().matches(&HashSet::from([key])));
    }
    for key in [VK_SHIFT, VK_LSHIFT, VK_RSHIFT] {
        assert!(key_pressed(&HashSet::from([key]), VK_SHIFT));
        assert!(parse_shortcut("shift").unwrap().matches(&HashSet::from([key])));
    }
    for key in [VK_LWIN, VK_RWIN] {
        assert!(parse_shortcut("meta").unwrap().matches(&HashSet::from([key])));
    }
    assert!(!key_pressed(&HashSet::from([VK_CONTROL]), VK_LCONTROL));
    assert!(any_pressed(&HashSet::from([1, 2]), &[3, 2]));
    assert!(!any_pressed(&HashSet::from([1, 2]), &[3, 4]));
    assert!(!any_pressed(&HashSet::from([1, 2]), &[]));
}

#[test]
fn other_keys_do_not_matter_but_other_modifiers_do() {
    let shortcut = parse_shortcut("ctrl+space").unwrap();
    assert!(shortcut.matches(&HashSet::from([VK_RCONTROL, VK_SPACE, 0x41])));
    assert!(!shortcut.matches(&HashSet::from([VK_RCONTROL, VK_SPACE, VK_LWIN])));
    assert!(!shortcut.matches(&HashSet::from([VK_SPACE])));
    assert!(!shortcut.matches(&HashSet::from([VK_RCONTROL])));
}

#[test]
fn reads_keyboard_messages() {
    assert_eq!(low_level_keyboard_message(HC_ACTION, WM_KEYDOWN), Some(true));
    assert_eq!(low_level_keyboard_message(HC_ACTION, WM_SYSKEYDOWN), Some(true));
    assert_eq!(low_level_keyboard_message(HC_ACTION, WM_KEYUP), Some(false));
    assert_eq!(low_level_keyboard_message(HC_ACTION, WM_SYSKEYUP), Some(false));
    assert_eq!(low_level_keyboard_message(HC_ACTION, 0x102), None);
    assert_eq!(low_level_keyboard_message(-1, WM_KEYDOWN), None);
    assert_eq!(
        install_failed("denied"),
        "Failed to install Windows low-level keyboard hook: denied"
    );
}

#[test]
fn every_keyboard_message_is_passed_on() {
    let note = |is_down: bool| KeyboardStep::Note { is_down };
    assert_eq!(
        low_level_keyboard_steps(HC_ACTION, WM_SYSKEYDOWN),
        vec![note(true), KeyboardStep::PassOn]
    );
    assert_eq!(
        low_level_keyboard_steps(HC_ACTION, WM_KEYUP),
        vec![note(false), KeyboardStep::PassOn]
    );
    assert_eq!(
        low_level_keyboard_steps(HC_ACTION, 0x102),
        vec![KeyboardStep::PassOn]
    );
    assert_eq!(
        low_level_keyboard_steps(-1, WM_KEYDOWN),
        vec![KeyboardStep::PassOn]
    );
}
