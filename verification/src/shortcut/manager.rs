//! What the thread behind a keyboard hook does with commands and key events.

use super::tracker;
use super::tracker::{
    register_binding, RawKeyEvent, RegisteredShortcut, ShortcutTracker, TrackerState,
};
use super::windows_hook;
use crate::settings::ShortcutBinding;
use crate::table;
use crate::table::StringTable;
use vstd::prelude::*;

verus! {

/// What the thread behind a keyboard hook is asked to do.
#[derive(Debug)]
pub enum ManagerCommand {
    Register { binding_id: String, hotkey_string: String },
    Unregister { binding_id: String },
    Shutdown,
}

impl ManagerCommand {
    /// Asks for a shortcut of the settings to be registered.
    pub fn register(binding: &ShortcutBinding) -> (r: Self)
        ensures
            r == (ManagerCommand::Register {
                binding_id: binding.id,
                hotkey_string: binding.current_binding,
            }),
    {
        ManagerCommand::Register {
            binding_id: binding.id.clone(),
            hotkey_string: binding.current_binding.clone(),
        }
    }

    /// Asks for a shortcut of the settings to be unregistered.
    pub fn unregister(binding: &ShortcutBinding) -> (r: Self)
        ensures
            r == (ManagerCommand::Unregister { binding_id: binding.id }),
    {
        ManagerCommand::Unregister { binding_id: binding.id.clone() }
    }
}

/// What came of waiting for a command for a while.
#[derive(Debug)]
pub enum Polled {
    Command(ManagerCommand),
    TimedOut,
    Disconnected,
}

/// The registered shortcuts by id, the keys and shortcuts being followed, and
/// whether the thread goes on.
pub struct ManagerState {
    pub bindings: Seq<(Seq<char>, RegisteredShortcut)>,
    pub tracker: TrackerState,
    pub running: bool,
}

/// What a command makes of the state, and what it is answered, where it is answered
/// at all: `Ok`, or the message that says why not.
pub open spec fn after_command(state: ManagerState, command: ManagerCommand) -> (
    ManagerState,
    Option<Result<(), Seq<char>>>,
) {
    match command {
        ManagerCommand::Register { binding_id, hotkey_string } => match tracker::refusal(
            state.bindings,
            binding_id@,
            hotkey_string@,
        ) {
            Some(message) => (state, Some(Err(message))),
            None => (
                ManagerState {
                    bindings: table::inserted(
                        state.bindings,
                        binding_id@,
                        RegisteredShortcut {
                            binding_id,
                            hotkey_string,
                            parsed: windows_hook::parsed(hotkey_string@)->Ok_0,
                        },
                    ),
                    ..state
                },
                Some(Ok(())),
            ),
        },
        ManagerCommand::Unregister { binding_id } => (
            ManagerState {
                bindings: table::removed(state.bindings, binding_id@),
                tracker: TrackerState {
                    active: tracker::remaining(state.tracker.active, seq![binding_id@]),
                    ..state.tracker
                },
                ..state
            },
            Some(Ok(())),
        ),
        ManagerCommand::Shutdown => (ManagerState { running: false, ..state }, None),
    }
}

/// What waiting for a command for a while makes of the state, and the answer.
pub open spec fn after_poll(state: ManagerState, polled: Polled) -> (
    ManagerState,
    Option<Result<(), Seq<char>>>,
) {
    match polled {
        Polled::Command(command) => after_command(state, command),
        Polled::TimedOut => (state, None),
        Polled::Disconnected => (ManagerState { running: false, ..state }, None),
    }
}

/// What a key event makes of the state, and what it reports.
pub open spec fn after_key(state: ManagerState, event: RawKeyEvent) -> (
    ManagerState,
    Seq<(RegisteredShortcut, bool)>,
) {
    let (followed, reported) = tracker::step(state.tracker, event, state.bindings);
    (ManagerState { tracker: followed, ..state }, reported)
}

/// An answer, with the message as characters.
pub open spec fn answer(reply: Option<Result<(), String>>) -> Option<Result<(), Seq<char>>> {
    match reply {
        Some(Ok(_)) => Some(Ok(())),
        Some(Err(message)) => Some(Err(message@)),
        None => None,
    }
}

/// The state of the thread behind a keyboard hook.
pub struct HookManager {
    bindings: StringTable<RegisteredShortcut>,
    tracker: ShortcutTracker,
    running: bool,
}

impl View for HookManager {
    type V = ManagerState;

    closed spec fn view(&self) -> ManagerState {
        ManagerState {
            bindings: self.bindings.entries(),
            tracker: self.tracker@,
            running: self.running,
        }
    }
}

impl HookManager {
    /// No id is registered or active twice.
    pub open spec fn wf(&self) -> bool {
        table::distinct_keys(self@.bindings) && self@.tracker.active.no_duplicates()
    }

    /// The state in which the thread starts: nothing registered, no key held.
    pub fn new() -> (r: Self)
        ensures
            r.wf(),
            r@ == (ManagerState {
                bindings: Seq::empty(),
                tracker: tracker::idle(),
                running: true,
            }),
    {
        HookManager {
            bindings: StringTable::new(),
            tracker: ShortcutTracker::default(),
            running: true,
        }
    }

    /// Whether the thread goes on.
    pub fn is_running(&self) -> (r: bool)
        ensures
            r == self@.running,
    {
        self.running
    }

    /// Carries out a command, and answers it, unless it is to shut down.
    pub fn handle(&mut self, command: ManagerCommand) -> (r: Option<Result<(), String>>)
        requires
            old(self).wf(),
        ensures
            final(self).wf(),
            (final(self)@, answer(r)) == after_command(old(self)@, command),
    {
        match command {
            ManagerCommand::Register { binding_id, hotkey_string } => Some(
                register_binding(&mut self.bindings, binding_id, hotkey_string),
            ),
            ManagerCommand::Unregister { binding_id } => {
                self.bindings.remove(binding_id.as_str());
                self.tracker.remove_binding(binding_id.as_str());
                Some(Ok(()))
            },
            ManagerCommand::Shutdown => {
                self.running = false;
                None
            },
        }
    }

    /// Carries out the command that came, if one did; stops where no more can come.
    pub fn poll(&mut self, polled: Polled) -> (r: Option<Result<(), String>>)
        requires
            old(self).wf(),
        ensures
            final(self).wf(),
            (final(self)@, answer(r)) == after_poll(old(self)@, polled),
    {
        match polled {
            Polled::Command(command) => self.handle(command),
            Polled::TimedOut => None,
            Polled::Disconnected => {
                self.running = false;
                None
            },
        }
    }

    /// Takes a key event into account, and reports the shortcuts that fire, with
    /// `true`, or end, with `false`.
    pub fn key_event(&mut self, event: RawKeyEvent) -> (r: Vec<(RegisteredShortcut, bool)>)
        requires
            old(self).wf(),
        ensures
            final(self).wf(),
            (final(self)@, r@) == after_key(old(self)@, event),
    {
        self.tracker.apply(event, &self.bindings)
    }
}

} // verus!
