//! Keyboard hooks: what is registered at the start, strokes and messages, and what callers
//! are told.

use crate::settings::ShortcutBinding;
use crate::shortcut::interception_hook;
use crate::shortcut::interception_hook::{
    driver_missing, function_missing, interception_keyboard_predicate, library_missing,
    stroke_received, stroke_sent, stroke_waits, InterceptionKeyStroke, StrokeStep,
};
use crate::shortcut::lifecycle;
use crate::shortcut::lifecycle::{cancel_binding, init_shortcuts, Exchange};
use crate::shortcut::manager;
use crate::shortcut::manager::{HookManager, ManagerCommand, ManagerState};
use crate::shortcut::tracker::RawKeyEvent;
use crate::shortcut::windows_hook;
use crate::shortcut::windows_hook::{install_failed, low_level_keyboard_message, KeyboardStep};
use crate::table;
use crate::table::StringTable;
use vstd::prelude::*;

verus! {

/// Each further default binding adds one to those registered at the start, the user's own
/// under the same id where there is one, unless it is the one that cancels, or the one
/// that post-processes while that is switched off.
pub proof fn lemma_further_default(
    defaults: Seq<(Seq<char>, ShortcutBinding)>,
    further: (Seq<char>, ShortcutBinding),
    user: Seq<(Seq<char>, ShortcutBinding)>,
    post_process_enabled: bool,
)
    ensures
        lifecycle::start_bindings(Seq::empty(), user, post_process_enabled) == Seq::<
            (Seq<char>, ShortcutBinding),
        >::empty(),
        ({
            let before = lifecycle::start_bindings(defaults, user, post_process_enabled);
            let after = lifecycle::start_bindings(
                defaults.push(further),
                user,
                post_process_enabled,
            );
            if further.0 == "cancel"@ || (further.0 == "transcribe_with_post_process"@
                && !post_process_enabled) {
                after == before
            } else {
                match table::lookup(user, further.0) {
                    Some(own) => after == before.push((further.0, own)),
                    None => after == before.push(further),
                }
            }
        }),
{
    let choice = lifecycle::start_binding(user, post_process_enabled);
    assert(defaults.push(further).drop_last() =~= defaults);
    assert(defaults.push(further).last() == further);
    let before = defaults.filter_map(choice);
    match table::lookup(user, further.0) {
        Some(own) => assert(before + seq![(further.0, own)] =~= before.push((further.0, own))),
        None => assert(before + seq![further] =~= before.push(further)),
    }
}

/// What the thread behind a hook answers is what the caller is told; where it was not
/// reached, or did not answer, the caller is told so.
pub proof fn lemma_callers_told(exchange: Exchange)
    ensures
        windows_hook::register_result(false, exchange) == Err::<(), Seq<char>>(
            "Windows low-level hook is not running"@,
        ),
        windows_hook::unregister_result(false, exchange) == Ok::<(), Seq<char>>(()),
        interception_hook::register_result(false, exchange) == Err::<(), Seq<char>>(
            "Interception hook is not running"@,
        ),
        interception_hook::unregister_result(false, exchange) == Ok::<(), Seq<char>>(()),
        match exchange {
            Exchange::NotSent => {
                &&& windows_hook::register_result(true, exchange) == Err::<(), Seq<char>>(
                    "Failed to send Windows hook register command"@,
                )
                &&& windows_hook::unregister_result(true, exchange) == Err::<(), Seq<char>>(
                    "Failed to send Windows hook unregister command"@,
                )
                &&& interception_hook::register_result(true, exchange) == Err::<(), Seq<char>>(
                    "Failed to send Interception register command"@,
                )
                &&& interception_hook::unregister_result(true, exchange) == Err::<(), Seq<char>>(
                    "Failed to send Interception unregister command"@,
                )
            },
            Exchange::NoReply => {
                &&& windows_hook::register_result(true, exchange) == Err::<(), Seq<char>>(
                    "Failed to receive Windows hook register response"@,
                )
                &&& windows_hook::unregister_result(true, exchange) == Err::<(), Seq<char>>(
                    "Failed to receive Windows hook unregister response"@,
                )
                &&& interception_hook::register_result(true, exchange) == Err::<(), Seq<char>>(
                    "Failed to receive Interception register response"@,
                )
                &&& interception_hook::unregister_result(true, exchange) == Err::<(), Seq<char>>(
                    "Failed to receive Interception unregister response"@,
                )
            },
            Exchange::Reply(reply) => {
                let told = match reply {
                    Ok(_) => Ok::<(), Seq<char>>(()),
                    Err(message) => Err::<(), Seq<char>>(message@),
                };
                &&& windows_hook::register_result(true, exchange) == told
                &&& windows_hook::unregister_result(true, exchange) == told
                &&& interception_hook::register_result(true, exchange) == told
                &&& interception_hook::unregister_result(true, exchange) == told
            },
        },
{
}

/// A stroke is a key event exactly where the system knows its key, and the key goes up
/// where the first bit of the state is set.
pub proof fn lemma_stroke_is_event(stroke: InterceptionKeyStroke, vk_code: u32)
    ensures
        match stroke.key_event(vk_code) {
            Some(event) => {
                &&& vk_code != 0
                &&& event.vk_code == vk_code
                &&& event.is_down <==> stroke.state % 2 == 0
            },
            None => vk_code == 0,
        },
{
    let state = stroke.state;
    assert((state & 0x01 == 0) == (state % 2 == 0)) by (bit_vector);
}

/// The second bit of the state sets the prefix E0 before the scan code; else the third
/// sets E1; else the scan code stands alone.
pub proof fn lemma_scan_code_prefixed(stroke: InterceptionKeyStroke)
    ensures
        stroke.prefixed_code() == (if (stroke.state / 2) % 2 == 1 {
            stroke.code as u32 | 0xe000
        } else if (stroke.state / 4) % 2 == 1 {
            stroke.code as u32 | 0xe100
        } else {
            stroke.code as u32
        }),
{
    let state = stroke.state;
    assert((state & 0x02 != 0) == ((state / 2) % 2 == 1)) by (bit_vector);
    assert((state & 0x04 != 0) == ((state / 4) % 2 == 1)) by (bit_vector);
}

/// A stroke whose key the system does not know changes nothing; another is taken as its
/// key event, and reports what that does, after it was sent back.
pub proof fn lemma_stroke_reports(state: ManagerState, stroke: InterceptionKeyStroke, vk_code: u32)
    ensures
        ({
            let (after, steps) = interception_hook::after_stroke(state, stroke, vk_code);
            let event = RawKeyEvent { vk_code, is_down: stroke.state % 2 == 0 };
            let (next, reported) = manager::after_key(state, event);
            if vk_code == 0 {
                &&& after == state
                &&& steps == seq![StrokeStep::SendBack(stroke)]
            } else {
                &&& after == next
                &&& steps.len() == reported.len() + 1
                &&& steps[0] == StrokeStep::SendBack(stroke)
                &&& forall|i: int|
                    0 <= i < reported.len() ==> #[trigger] steps[i + 1] == StrokeStep::Report(
                        reported[i].0,
                        reported[i].1,
                    )
            }
        }),
{
    lemma_stroke_is_event(stroke, vk_code);
}

/// A message of the system is a key that goes down or up exactly where it is to be acted
/// on and has one of the four numbers of such messages.
pub proof fn lemma_keyboard_messages(code: i32, message: u32, r: Option<bool>)
    requires
        call_ensures(low_level_keyboard_message, (code, message), r),
    ensures
        r == Some(true) <==> code == 0 && (message == 0x100 || message == 0x104),
        r == Some(false) <==> code == 0 && (message == 0x101 || message == 0x105),
{
}

/// A key is noted exactly where such a message comes, and every message is passed on.
pub proof fn lemma_keys_noted(code: i32, message: u32)
    ensures
        ({
            let steps = windows_hook::keyboard_steps(code, message);
            let down = code == 0 && (message == 0x100 || message == 0x104);
            let up = code == 0 && (message == 0x101 || message == 0x105);
            &&& steps.last() == KeyboardStep::PassOn
            &&& steps.len() == (if down || up {
                2int
            } else {
                1int
            })
            &&& down || up ==> steps[0] == KeyboardStep::Note { is_down: down }
        }),
{
}

/// Devices from one to ten are keyboards. A stroke is waited for on a valid keyboard, was
/// received where the driver gives a positive number, and was sent where it gives one.
pub proof fn lemma_driver_answers(
    device: i32,
    is_invalid: i32,
    is_keyboard: i32,
    predicate: i32,
    waits: bool,
    received: bool,
    sent: bool,
)
    requires
        call_ensures(interception_keyboard_predicate, (device,), predicate),
        call_ensures(stroke_waits, (device, is_invalid, is_keyboard), waits),
        call_ensures(stroke_received, (device,), received),
        call_ensures(stroke_sent, (device,), sent),
    ensures
        predicate == 1 || predicate == 0,
        predicate == 1 <==> 1 <= device <= 10,
        waits <==> device != 0 && is_invalid == 0 && is_keyboard != 0,
        received <==> device > 0,
        sent <==> device == 1,
{
}

/// What is said where the driver, its library or the system's hook fails.
pub proof fn lemma_failures_said(
    name: &str,
    error: &str,
    library: String,
    function: String,
    driver: String,
    install: String,
)
    requires
        call_ensures(library_missing, (error,), library),
        call_ensures(function_missing, (name, error), function),
        call_ensures(driver_missing, (), driver),
        call_ensures(install_failed, (error,), install),
    ensures
        library@ == "Failed to load interception.dll: "@ + error@
            + ". Put the x64 Interception DLL next to handy.exe and install the Interception driver as Administrator."@,
        function@ == name@ + " missing: "@ + error@,
        driver@
            == "Failed to create Interception context. Is the Interception driver installed?"@,
        install@ == "Failed to install Windows low-level keyboard hook: "@ + error@,
{
}

/// A thread starts with nothing registered, nothing active and no key held, and goes on.
pub proof fn lemma_thread_starts(r: HookManager)
    requires
        call_ensures(HookManager::new, (), r),
    ensures
        r@.bindings.len() == 0,
        r@.tracker.active.len() == 0,
        forall|key: u32| !r@.tracker.held.contains(key),
        r@.running,
{
}

/// A shortcut of the settings is registered under its id with its keys, and unregistered
/// under its id.
pub proof fn lemma_commands(
    binding: &ShortcutBinding,
    register: ManagerCommand,
    unregister: ManagerCommand,
)
    requires
        call_ensures(ManagerCommand::register, (binding,), register),
        call_ensures(ManagerCommand::unregister, (binding,), unregister),
    ensures
        register matches ManagerCommand::Register { binding_id, hotkey_string } && binding_id@
            == binding.id@ && hotkey_string@ == binding.current_binding@,
        unregister matches ManagerCommand::Unregister { binding_id } && binding_id@
            == binding.id@,
{
}

/// What is registered at the start are the bindings that the defaults and the user's make,
/// in order; and the one that cancels is the user's under its id.
pub proof fn lemma_start_lists(
    defaults: &StringTable<ShortcutBinding>,
    user: &StringTable<ShortcutBinding>,
    post_process_enabled: bool,
    r: Vec<(String, ShortcutBinding)>,
    cancel: Option<ShortcutBinding>,
)
    requires
        call_ensures(init_shortcuts, (defaults, user, post_process_enabled), r),
        call_ensures(cancel_binding, (user,), cancel),
    ensures
        ({
            let listed = lifecycle::start_bindings(
                defaults.entries(),
                user.entries(),
                post_process_enabled,
            );
            &&& r@.len() == listed.len()
            &&& forall|i: int|
                0 <= i < listed.len() ==> (#[trigger] r@[i]).0@ == listed[i].0 && r@[i].1
                    == listed[i].1
        }),
        cancel == table::lookup(user.entries(), "cancel"@),
{
    let listed = lifecycle::start_bindings(
        defaults.entries(),
        user.entries(),
        post_process_enabled,
    );
    assert(lifecycle::under_ids(r@) == listed);
    assert forall|i: int| 0 <= i < listed.len() implies (#[trigger] r@[i]).0@ == listed[i].0
        && r@[i].1 == listed[i].1 by {
        assert(lifecycle::under_ids(r@)[i] == (r@[i].0@, r@[i].1));
    }
}

} // verus!
