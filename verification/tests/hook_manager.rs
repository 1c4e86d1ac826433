use handy_core::settings::ShortcutBinding;
use handy_core::shortcut::lifecycle::{cancel_binding, init_shortcuts, Exchange, Ready};
use handy_core::shortcut::manager::{HookManager, ManagerCommand, Polled};
use handy_core::shortcut::tracker::{register_binding, RawKeyEvent, RegisteredShortcut};
use handy_core::shortcut::windows_hook::{
    register_reply, register_shortcut, unregister_reply, unregister_shortcut, WindowsHookState,
    VK_LCONTROL, VK_LSHIFT, VK_SPACE,
};
use handy_core::table::StringTable;

fn register(binding_id: &str, hotkey_string: &str) -> ManagerCommand {
    ManagerCommand::register(&binding(binding_id, hotkey_string))
}

fn unregister(binding_id: &str) -> ManagerCommand {
    ManagerCommand::unregister(&binding(binding_id, ""))
}

fn binding(id: &str, current_binding: &str) -> ShortcutBinding {
    ShortcutBinding {
        id: id.to_string(),
        current_binding: current_binding.to_string(),
    }
}

fn key(manager: &mut HookManager, vk_code: u32, is_down: bool) -> Vec<(String, bool)> {
    manager
        .key_event(RawKeyEvent { vk_code, is_down })
        .into_iter()
        .map(|(shortcut, is_pressed)| (shortcut.binding_id, is_pressed))
        .collect()
}

#[test]
fn refuses_keys_that_are_in_use() {
    let mut bindings: StringTable<RegisteredShortcut> = StringTable::new();
    assert_eq!(
        register_binding(&mut bindings, "a".to_string(), "ctrl+space".to_string()),
        Ok(())
    );
    assert_eq!(
        register_binding(&mut bindings, "b".to_string(), "Control+Space".to_string()),
        Err("Shortcut 'Control+Space' is already in use by 'a'".to_string())
    );
    assert_eq!(
        register_binding(&mut bindings, "a".to_string(), "control+space".to_string()),
        Ok(())
    );
    assert_eq!(bindings.len(), 1);
    assert_eq!(bindings.value_at(0).hotkey_string, "control+space");
    assert_eq!(
        register_binding(&mut bindings, "c".to_string(), "".to_string()),
        Err("Shortcut cannot be empty".to_string())
    );
    assert_eq!(bindings.len(), 1);
}

#[test]
fn commands_are_answered() {
    let mut manager = HookManager::new();
    assert!(manager.is_running());
    assert_eq!(manager.handle(register("a", "ctrl+space")), Some(Ok(())));
    assert_eq!(
        manager.handle(register("b", "ctrl+space")),
        Some(Err("Shortcut 'ctrl+space' is already in use by 'a'".to_string()))
    );
    assert_eq!(manager.handle(unregister("a")), Some(Ok(())));
    assert_eq!(manager.handle(unregister("a")), Some(Ok(())));
    assert_eq!(manager.handle(register("b", "ctrl+space")), Some(Ok(())));
    assert_eq!(manager.poll(Polled::TimedOut), None);
    assert!(manager.is_running());
    assert_eq!(manager.poll(Polled::Command(ManagerCommand::Shutdown)), None);
    assert!(!manager.is_running());
    assert_eq!(manager.poll(Polled::TimedOut), None);
    assert!(!manager.is_running());
}

#[test]
fn disconnected_senders_stop_the_thread() {
    let mut manager = HookManager::new();
    assert_eq!(manager.poll(Polled::Disconnected), None);
    assert!(!manager.is_running());
}

#[test]
fn reports_alternate() {
    let mut manager = HookManager::new();
    manager.handle(register("a", "ctrl+space"));
    let mut said = Vec::new();
    for (vk_code, is_down) in [
        (VK_LCONTROL, true),
        (VK_SPACE, true),
        (VK_SPACE, true),
        (VK_LSHIFT, true),
        (VK_LSHIFT, false),
        (VK_SPACE, false),
        (VK_SPACE, false),
        (VK_SPACE, true),
        (VK_LCONTROL, false),
    ] {
        for (_, is_pressed) in key(&mut manager, vk_code, is_down) {
            said.push(is_pressed);
        }
    }
    assert_eq!(said, vec![true, false, true, false]);
}

#[test]
fn a_further_modifier_ends_nothing_until_a_key_goes_up() {
    let mut manager = HookManager::new();
    manager.handle(register("a", "ctrl+space"));
    key(&mut manager, VK_LCONTROL, true);
    assert_eq!(
        key(&mut manager, VK_SPACE, true),
        vec![("a".to_string(), true)]
    );
    assert!(key(&mut manager, VK_LSHIFT, true).is_empty());
    assert!(key(&mut manager, VK_LSHIFT, false).is_empty());
    key(&mut manager, VK_LSHIFT, true);
    assert_eq!(
        key(&mut manager, VK_SPACE, false),
        vec![("a".to_string(), false)]
    );
}

#[test]
fn one_key_can_fire_several_shortcuts() {
    let mut manager = HookManager::new();
    manager.handle(register("with_key", "ctrl+space"));
    manager.handle(register("modifier", "ctrl"));
    key(&mut manager, VK_SPACE, true);
    let mut fired = key(&mut manager, VK_LCONTROL, true);
    fired.sort();
    assert_eq!(
        fired,
        vec![("modifier".to_string(), true), ("with_key".to_string(), true)]
    );
}

#[test]
fn unregistered_shortcuts_are_silent() {
    let mut manager = HookManager::new();
    manager.handle(register("a", "ctrl+space"));
    manager.handle(register("b", "shift"));
    key(&mut manager, VK_LCONTROL, true);
    assert_eq!(key(&mut manager, VK_SPACE, true).len(), 1);
    manager.handle(unregister("a"));
    assert!(key(&mut manager, VK_SPACE, false).is_empty());
    assert!(key(&mut manager, VK_SPACE, true).is_empty());
    manager.handle(register("a", "ctrl+space"));
    assert_eq!(
        key(&mut manager, VK_SPACE, true),
        vec![("a".to_string(), true)]
    );
}

#[test]
fn shortcuts_can_be_registered_anew_while_held() {
    let mut manager = HookManager::new();
    manager.handle(register("a", "ctrl+space"));
    key(&mut manager, VK_LCONTROL, true);
    key(&mut manager, VK_SPACE, true);
    manager.handle(register("a", "alt+f4"));
    assert!(key(&mut manager, VK_SPACE, true).is_empty());
    assert_eq!(
        key(&mut manager, VK_SPACE, false),
        vec![("a".to_string(), false)]
    );
}

#[test]
fn low_level_hook_lifecycle() {
    let mut hook = WindowsHookState::new();
    assert_eq!(
        register_shortcut(Some(&hook), Exchange::Reply(Ok(()))),
        Err("Windows low-level hook is not running".to_string())
    );
    assert_eq!(
        unregister_shortcut(Some(&hook), Exchange::NotSent),
        Ok(())
    );
    let (result, back) = hook.start(1_u8, Ready::TimedOut("late".to_string()));
    assert_eq!(
        result,
        Err("Timed out starting Windows low-level hook: late".to_string())
    );
    assert_eq!(back, Some(1));
    let (result, back) = hook.start(2, Ready::Failed("refused".to_string()));
    assert_eq!(result, Err("refused".to_string()));
    assert_eq!(back, Some(2));
    assert_eq!(hook.start(3, Ready::Started), (Ok(()), None));
    assert_eq!(hook.start(4, Ready::Started), (Ok(()), Some(4)));
    assert_eq!(hook.running(), Some(&3));
    assert_eq!(
        hook.register(Exchange::NotSent),
        Err("Failed to send Windows hook register command".to_string())
    );
    assert_eq!(
        hook.register(Exchange::NoReply),
        Err("Failed to receive Windows hook register response".to_string())
    );
    assert_eq!(
        hook.register(Exchange::Reply(Err("in use".to_string()))),
        Err("in use".to_string())
    );
    assert_eq!(
        hook.unregister(Exchange::NotSent),
        Err("Failed to send Windows hook unregister command".to_string())
    );
    assert_eq!(
        hook.unregister(Exchange::NoReply),
        Err("Failed to receive Windows hook unregister response".to_string())
    );
    assert_eq!(hook.unregister(Exchange::Reply(Ok(()))), Ok(()));
    assert_eq!(register_reply(true, Exchange::Reply(Ok(()))), Ok(()));
    assert_eq!(
        register_reply(false, Exchange::Reply(Ok(()))),
        Err("Windows low-level hook is not running".to_string())
    );
    assert_eq!(unregister_reply(false, Exchange::NoReply), Ok(()));
    assert_eq!(hook.shutdown(), Some(3));
    assert_eq!(hook.shutdown(), None);
    assert_eq!(
        WindowsHookState::<u8>::lock_failed(),
        "Failed to lock Windows hook runtime"
    );
    let message = "Windows low-level hook state is not initialized".to_string();
    assert_eq!(
        register_shortcut::<u8>(None, Exchange::NotSent),
        Err(message.clone())
    );
    assert_eq!(
        unregister_shortcut::<u8>(None, Exchange::NotSent),
        Err(message)
    );
}

#[test]
fn start_registers_the_users_bindings() {
    let mut defaults = StringTable::new();
    for id in ["transcribe", "cancel", "transcribe_with_post_process", "test"] {
        defaults.insert(id.to_string(), binding(id, "default"));
    }
    let mut user = StringTable::new();
    user.insert("test".to_string(), binding("test", "own"));
    user.insert("cancel".to_string(), binding("cancel", "own"));
    user.insert("more".to_string(), binding("more", "own"));

    let chosen = |post_process_enabled: bool| -> Vec<(String, String)> {
        init_shortcuts(&defaults, &user, post_process_enabled)
            .into_iter()
            .map(|(id, binding)| {
                assert_eq!(id, binding.id);
                (id, binding.current_binding)
            })
            .collect()
    };
    let pair = |id: &str, keys: &str| (id.to_string(), keys.to_string());
    assert_eq!(
        chosen(false),
        vec![pair("transcribe", "default"), pair("test", "own")]
    );
    assert_eq!(
        chosen(true),
        vec![
            pair("transcribe", "default"),
            pair("transcribe_with_post_process", "default"),
            pair("test", "own")
        ]
    );
    assert_eq!(cancel_binding(&user).unwrap().current_binding, "own");
    assert!(cancel_binding(&StringTable::new()).is_none());
}
