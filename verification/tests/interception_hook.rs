use handy_core::shortcut::interception_hook::{
    driver_missing, function_missing, interception_keyboard_predicate, library_missing,
    register_reply, register_shortcut, stroke_received, stroke_sent, stroke_steps, stroke_waits,
    unregister_reply, unregister_shortcut, validate_shortcut, InterceptionHookState,
    InterceptionKeyStroke, StrokeStep, INTERCEPTION_FILTER_KEY_ALL, INTERCEPTION_KEY_E0,
    INTERCEPTION_KEY_E1, INTERCEPTION_KEY_UP,
};
use handy_core::shortcut::lifecycle::{Exchange, Ready};
use handy_core::shortcut::manager::{HookManager, ManagerCommand};

fn stroke(code: u16, state: u16) -> InterceptionKeyStroke {
    InterceptionKeyStroke {
        code,
        state,
        information: 0,
    }
}

#[test]
fn maps_basic_interception_scan_code_to_vk() {
    let stroke = InterceptionKeyStroke {
        code: 0x39,
        state: 0,
        information: 0,
    };
    assert_eq!(stroke.scan_code(), 0x39);

    let event = stroke.to_raw_key_event(0x20).unwrap();

    assert_eq!(event.vk_code, 0x20);
    assert!(event.is_down);
}

#[test]
fn maps_key_up_state() {
    let event = InterceptionKeyStroke {
        code: 0x39,
        state: INTERCEPTION_KEY_UP,
        information: 0,
    }
    .to_raw_key_event(0x20)
    .unwrap();

    assert!(!event.is_down);
}

#[test]
fn prefixes_scan_codes() {
    assert_eq!(stroke(0x1d, INTERCEPTION_KEY_E0).scan_code(), 0xe01d);
    assert_eq!(stroke(0x1d, INTERCEPTION_KEY_E1).scan_code(), 0xe11d);
    assert_eq!(
        stroke(0x1d, INTERCEPTION_KEY_E0 | INTERCEPTION_KEY_E1).scan_code(),
        0xe01d
    );
    assert_eq!(
        stroke(0x38, INTERCEPTION_KEY_E0 | INTERCEPTION_KEY_UP).scan_code(),
        0xe038
    );
}

#[test]
fn drops_strokes_without_virtual_key() {
    assert!(stroke(0x7f, 0).to_raw_key_event(0).is_none());
    assert!(stroke(0x7f, INTERCEPTION_KEY_UP).to_raw_key_event(0).is_none());
}

#[test]
fn only_the_first_ten_devices_are_keyboards() {
    assert_eq!(interception_keyboard_predicate(0), 0);
    assert_eq!(interception_keyboard_predicate(1), 1);
    assert_eq!(interception_keyboard_predicate(10), 1);
    assert_eq!(interception_keyboard_predicate(11), 0);
    assert_eq!(interception_keyboard_predicate(-1), 0);
    assert_eq!(INTERCEPTION_FILTER_KEY_ALL, 0xffff);
}

#[test]
fn strokes_wait_on_valid_keyboards_only() {
    assert!(stroke_waits(3, 0, 1));
    assert!(!stroke_waits(0, 0, 1));
    assert!(!stroke_waits(3, 1, 1));
    assert!(!stroke_waits(3, 0, 0));
    assert!(stroke_received(1));
    assert!(!stroke_received(0));
    assert!(!stroke_received(-1));
    assert!(stroke_sent(1));
    assert!(!stroke_sent(0));
    assert!(!stroke_sent(2));
}

#[test]
fn interception_messages() {
    assert_eq!(
        library_missing("not found"),
        "Failed to load interception.dll: not found. Put the x64 Interception DLL next to handy.exe and install the Interception driver as Administrator."
    );
    assert_eq!(
        function_missing("interception_send", "no symbol"),
        "interception_send missing: no symbol"
    );
    assert_eq!(
        driver_missing(),
        "Failed to create Interception context. Is the Interception driver installed?"
    );
}

#[test]
fn interception_validates_like_the_low_level_hook() {
    assert_eq!(validate_shortcut("alt+f4"), Ok(()));
    assert_eq!(
        validate_shortcut("fn"),
        Err("The fn key is not available to the Windows low-level hook".to_string())
    );
}

#[test]
fn interception_hook_lifecycle() {
    let mut hook = InterceptionHookState::new();
    assert!(hook.running().is_none());
    assert_eq!(
        hook.register(Exchange::Reply(Ok(()))),
        Err("Interception hook is not running".to_string())
    );
    assert_eq!(hook.unregister(Exchange::NotSent), Ok(()));

    let (result, back) = hook.start(1_u8, Ready::Failed("no driver".to_string()));
    assert_eq!(result, Err("no driver".to_string()));
    assert_eq!(back, Some(1));
    let (result, back) = hook.start(2, Ready::TimedOut("timed out".to_string()));
    assert_eq!(
        result,
        Err("Timed out starting Interception hook: timed out".to_string())
    );
    assert_eq!(back, Some(2));
    assert_eq!(hook.start(3, Ready::Started), (Ok(()), None));
    assert_eq!(hook.running(), Some(&3));
    assert_eq!(hook.start(4, Ready::Started), (Ok(()), Some(4)));
    assert_eq!(hook.running(), Some(&3));

    assert_eq!(hook.register(Exchange::Reply(Ok(()))), Ok(()));
    assert_eq!(
        hook.register(Exchange::NotSent),
        Err("Failed to send Interception register command".to_string())
    );
    assert_eq!(
        hook.register(Exchange::NoReply),
        Err("Failed to receive Interception register response".to_string())
    );
    assert_eq!(
        hook.unregister(Exchange::NotSent),
        Err("Failed to send Interception unregister command".to_string())
    );
    assert_eq!(
        hook.unregister(Exchange::NoReply),
        Err("Failed to receive Interception unregister response".to_string())
    );
    assert_eq!(
        hook.unregister(Exchange::Reply(Err("busy".to_string()))),
        Err("busy".to_string())
    );

    assert_eq!(register_reply(true, Exchange::Reply(Ok(()))), Ok(()));
    assert_eq!(
        register_reply(false, Exchange::NotSent),
        Err("Interception hook is not running".to_string())
    );
    assert_eq!(unregister_reply(false, Exchange::NotSent), Ok(()));
    assert_eq!(hook.shutdown(), Some(3));
    assert_eq!(hook.shutdown(), None);
    assert!(hook.running().is_none());
    assert_eq!(
        InterceptionHookState::<u8>::lock_failed(),
        "Failed to lock Interception hook runtime"
    );
}

#[test]
fn interception_hook_may_be_uninitialized() {
    let message = "Windows Interception hook state is not initialized".to_string();
    assert_eq!(
        register_shortcut::<u8>(None, Exchange::Reply(Ok(()))),
        Err(message.clone())
    );
    assert_eq!(
        unregister_shortcut::<u8>(None, Exchange::Reply(Ok(()))),
        Err(message)
    );
    let mut hook = InterceptionHookState::new();
    assert_eq!(hook.start(1_u8, Ready::Started), (Ok(()), None));
    assert_eq!(
        register_shortcut(Some(&hook), Exchange::Reply(Ok(()))),
        Ok(())
    );
    assert_eq!(
        unregister_shortcut(Some(&hook), Exchange::Reply(Ok(()))),
        Ok(())
    );
}

#[test]
fn strokes_are_sent_back_before_anything_is_reported() {
    let mut manager = HookManager::new();
    manager.handle(ManagerCommand::Register {
        binding_id: "a".to_string(),
        hotkey_string: "space".to_string(),
    });
    let down = InterceptionKeyStroke {
        code: 0x39,
        state: 0,
        information: 7,
    };
    let steps = stroke_steps(&mut manager, down, 0x20);
    assert_eq!(steps.len(), 2);
    assert!(matches!(
        &steps[0],
        StrokeStep::SendBack(stroke)
            if stroke.code == 0x39 && stroke.state == 0 && stroke.information == 7
    ));
    assert!(matches!(
        &steps[1],
        StrokeStep::Report(shortcut, true) if shortcut.binding_id == "a"
    ));

    let unmapped = stroke_steps(&mut manager, stroke(0x7f, INTERCEPTION_KEY_UP), 0);
    assert!(matches!(
        unmapped.as_slice(),
        [StrokeStep::SendBack(stroke)] if stroke.code == 0x7f && stroke.state == 1
    ));

    let up = stroke_steps(&mut manager, stroke(0x39, INTERCEPTION_KEY_UP), 0x20);
    assert!(matches!(
        up.as_slice(),
        [StrokeStep::SendBack(_), StrokeStep::Report(_, false)]
    ));
}
