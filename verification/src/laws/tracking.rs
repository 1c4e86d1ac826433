//! Key events and registration: which shortcuts are reported, and which are refused.

use crate::shortcut::manager;
use crate::shortcut::manager::{ManagerCommand, ManagerState, Polled};
use crate::shortcut::tracker;
use crate::shortcut::tracker::{RawKeyEvent, RegisteredShortcut, TrackerState};
use crate::shortcut::windows_hook;
use crate::shortcut::windows_hook::ParsedShortcut;
use crate::table;
use vstd::prelude::*;

verus! {

proof fn lemma_fired_each(
    shortcuts: Seq<RegisteredShortcut>,
    active: Seq<Seq<char>>,
    held: Set<u32>,
    k: int,
)
    requires
        0 <= k < tracker::fired(shortcuts, active, held).len(),
    ensures
        ({
            let one = tracker::fired(shortcuts, active, held)[k];
            &&& shortcuts.contains(one)
            &&& one.parsed.held_by(held)
            &&& !active.contains(one.binding_id@)
        }),
    decreases shortcuts.len(),
{
    let first = shortcuts[0];
    let rest = shortcuts.skip(1);
    if !active.contains(first.binding_id@) && first.parsed.held_by(held) {
        let next = active.push(first.binding_id@);
        if k > 0 {
            lemma_fired_each(rest, next, held, k - 1);
            let one = tracker::fired(rest, next, held)[k - 1];
            assert(tracker::fired(shortcuts, active, held)[k] == one);
            let i = choose|i: int| 0 <= i < rest.len() && rest[i] == one;
            assert(shortcuts[i + 1] == one);
            if active.contains(one.binding_id@) {
                let j = choose|j: int| 0 <= j < active.len() && active[j] == one.binding_id@;
                assert(next[j] == one.binding_id@);
            }
        } else {
            assert(tracker::fired(shortcuts, active, held)[0] == first);
            assert(shortcuts[0] == first);
        }
    } else {
        lemma_fired_each(rest, active, held, k);
        let one = tracker::fired(rest, active, held)[k];
        let i = choose|i: int| 0 <= i < rest.len() && rest[i] == one;
        assert(shortcuts[i + 1] == one);
    }
}

/// What a key that goes down reports is that a registered shortcut fires whose keys are
/// held now, all of its modifiers and no others, and that was not active before.
pub proof fn lemma_only_held_fire(
    state: TrackerState,
    event: RawKeyEvent,
    bindings: Seq<(Seq<char>, RegisteredShortcut)>,
    k: int,
)
    requires
        event.is_down,
        0 <= k < tracker::step(state, event, bindings).1.len(),
    ensures
        ({
            let (shortcut, is_pressed) = tracker::step(state, event, bindings).1[k];
            &&& is_pressed
            &&& shortcut.parsed.held_by(state.held.insert(event.vk_code))
            &&& !state.active.contains(shortcut.binding_id@)
            &&& exists|i: int| 0 <= i < bindings.len() && (#[trigger] bindings[i]).1 == shortcut
        }),
{
    let held = state.held.insert(event.vk_code);
    let values = table::values(bindings);
    lemma_fired_each(values, state.active, held, k);
    let one = tracker::fired(values, state.active, held)[k];
    let i = choose|i: int| 0 <= i < values.len() && values[i] == one;
    assert(bindings[i].1 == one);
}

proof fn lemma_released_each(
    bindings: Seq<(Seq<char>, RegisteredShortcut)>,
    active: Seq<Seq<char>>,
    held: Set<u32>,
    k: int,
)
    requires
        0 <= k < tracker::released(bindings, active, held).len(),
    ensures
        ({
            let one = tracker::released(bindings, active, held)[k];
            &&& !one.parsed.held_by(held)
            &&& exists|j: int|
                0 <= j < active.len() && table::lookup(bindings, #[trigger] active[j]) == Some(one)
        }),
{
    let ending = |id: Seq<char>| tracker::ended(bindings, held, id);
    let one = tracker::released(bindings, active, held)[k];
    assert(active.filter_map(ending).contains(one));
    active.lemma_filter_map_contains(ending, one);
    let id = choose|id: Seq<char>| #[trigger] active.contains(id) && ending(id) == Some(one);
    let j = choose|j: int| 0 <= j < active.len() && active[j] == id;
    assert(table::lookup(bindings, active[j]) == Some(one));
}

/// What a key that goes up reports is that an active shortcut ends, as it is registered,
/// whose keys are no longer held.
pub proof fn lemma_only_released_end(
    state: TrackerState,
    event: RawKeyEvent,
    bindings: Seq<(Seq<char>, RegisteredShortcut)>,
    k: int,
)
    requires
        !event.is_down,
        0 <= k < tracker::step(state, event, bindings).1.len(),
    ensures
        ({
            let (shortcut, is_pressed) = tracker::step(state, event, bindings).1[k];
            &&& !is_pressed
            &&& !shortcut.parsed.held_by(state.held.remove(event.vk_code))
            &&& exists|j: int|
                0 <= j < state.active.len() && table::lookup(bindings, #[trigger] state.active[j])
                    == Some(shortcut)
        }),
{
    lemma_released_each(bindings, state.active, state.held.remove(event.vk_code), k);
}

proof fn lemma_fired_reported(
    shortcuts: Seq<RegisteredShortcut>,
    active: Seq<Seq<char>>,
    held: Set<u32>,
    i: int,
)
    requires
        0 <= i < shortcuts.len(),
        shortcuts[i].parsed.held_by(held),
        !active.contains(shortcuts[i].binding_id@),
    ensures
        exists|k: int|
            0 <= k < tracker::fired(shortcuts, active, held).len() && (#[trigger] tracker::fired(
                shortcuts,
                active,
                held,
            )[k]).binding_id@ == shortcuts[i].binding_id@,
    decreases shortcuts.len(),
{
    let first = shortcuts[0];
    let rest = shortcuts.skip(1);
    let now = tracker::fired(shortcuts, active, held);
    let id = shortcuts[i].binding_id@;
    if i > 0 {
        assert(rest[i - 1] == shortcuts[i]);
    }
    if !active.contains(first.binding_id@) && first.parsed.held_by(held) {
        if first.binding_id@ == id {
            assert(now[0].binding_id@ == id);
        } else {
            let next = active.push(first.binding_id@);
            if next.contains(id) {
                let j = choose|j: int| 0 <= j < next.len() && next[j] == id;
                assert(j < active.len());
                assert(active[j] == id);
            }
            lemma_fired_reported(rest, next, held, i - 1);
            let later = tracker::fired(rest, next, held);
            let k = choose|k: int| 0 <= k < later.len() && (#[trigger] later[k]).binding_id@ == id;
            assert(now[k + 1] == later[k]);
        }
    } else {
        lemma_fired_reported(rest, active, held, i - 1);
    }
}

/// Every registered shortcut that was not active, and whose keys are held once a key went
/// down, is reported under its id.
pub proof fn lemma_held_fire(
    state: TrackerState,
    event: RawKeyEvent,
    bindings: Seq<(Seq<char>, RegisteredShortcut)>,
    i: int,
)
    requires
        event.is_down,
        0 <= i < bindings.len(),
        bindings[i].1.parsed.held_by(state.held.insert(event.vk_code)),
        !state.active.contains(bindings[i].1.binding_id@),
    ensures
        exists|k: int|
            0 <= k < tracker::step(state, event, bindings).1.len() && (#[trigger] tracker::step(
                state,
                event,
                bindings,
            ).1[k]).0.binding_id@ == bindings[i].1.binding_id@,
{
    let held = state.held.insert(event.vk_code);
    let values = table::values(bindings);
    assert(values[i] == bindings[i].1);
    lemma_fired_reported(values, state.active, held, i);
    let now = tracker::fired(values, state.active, held);
    let k = choose|k: int|
        0 <= k < now.len() && (#[trigger] now[k]).binding_id@ == values[i].binding_id@;
    assert(tracker::step(state, event, bindings).1[k].0 == now[k]);
}

proof fn lemma_mapped_in<A, B>(s: Seq<A>, f: spec_fn(A) -> Option<B>, i: int)
    requires
        0 <= i < s.len(),
        f(s[i]) is Some,
    ensures
        s.filter_map(f).contains(f(s[i])->0),
    decreases s.len(),
{
    broadcast use vstd::seq_lib::group_seq_properties;

    let start = s.drop_last();
    let all = s.filter_map(f);
    if i == s.len() - 1 {
        assert(all[all.len() - 1] == f(s[i])->0);
    } else {
        assert(start[i] == s[i]);
        lemma_mapped_in(start, f, i);
        let part = start.filter_map(f);
        let k = choose|k: int| 0 <= k < part.len() && part[k] == f(s[i])->0;
        assert(all[k] == part[k]);
    }
}

/// Every active shortcut that is registered, and whose keys are no longer held once a key
/// went up, is reported.
pub proof fn lemma_released_end(
    state: TrackerState,
    event: RawKeyEvent,
    bindings: Seq<(Seq<char>, RegisteredShortcut)>,
    j: int,
    shortcut: RegisteredShortcut,
)
    requires
        !event.is_down,
        0 <= j < state.active.len(),
        table::lookup(bindings, state.active[j]) == Some(shortcut),
        !shortcut.parsed.held_by(state.held.remove(event.vk_code)),
    ensures
        tracker::step(state, event, bindings).1.contains((shortcut, false)),
{
    let held = state.held.remove(event.vk_code);
    let ending = |id: Seq<char>| tracker::ended(bindings, held, id);
    lemma_mapped_in(state.active, ending, j);
    let gone = tracker::released(bindings, state.active, held);
    let k = choose|k: int| 0 <= k < gone.len() && gone[k] == shortcut;
    assert(tracker::step(state, event, bindings).1[k] == (shortcut, false));
}

/// A key event changes what is held in its own key alone; an id becomes active exactly
/// where it is reported to fire, and inactive exactly where it is reported to end.
pub proof fn lemma_reports_tell_all(
    state: TrackerState,
    event: RawKeyEvent,
    bindings: Seq<(Seq<char>, RegisteredShortcut)>,
    key: u32,
    id: Seq<char>,
)
    ensures
        ({
            let (next, reported) = tracker::step(state, event, bindings);
            let said = exists|k: int|
                0 <= k < reported.len() && (#[trigger] reported[k]).0.binding_id@ == id;
            &&& next.held.contains(key) <==> (if key == event.vk_code {
                event.is_down
            } else {
                state.held.contains(key)
            })
            &&& next.active.contains(id) <==> (if event.is_down {
                state.active.contains(id) || said
            } else {
                state.active.contains(id) && !said
            })
        }),
{
    broadcast use vstd::seq_lib::group_seq_properties;

    let (next, reported) = tracker::step(state, event, bindings);
    let shortcuts = if event.is_down {
        tracker::fired(table::values(bindings), state.active, state.held.insert(event.vk_code))
    } else {
        tracker::released(bindings, state.active, state.held.remove(event.vk_code))
    };
    let said = exists|k: int|
        0 <= k < reported.len() && (#[trigger] reported[k]).0.binding_id@ == id;
    let all = tracker::ids(shortcuts);
    assert(said <==> all.contains(id)) by {
        if said {
            let k = choose|k: int|
                0 <= k < reported.len() && (#[trigger] reported[k]).0.binding_id@ == id;
            assert(reported[k].0 == shortcuts[k]);
            assert(all[k] == id);
        }
        if all.contains(id) {
            let k = choose|k: int| 0 <= k < all.len() && all[k] == id;
            assert(reported[k].0.binding_id@ == id);
        }
    }
    if event.is_down {
        assert(next.active == state.active + all);
        if next.active.contains(id) && !state.active.contains(id) {
            let k = choose|k: int| 0 <= k < next.active.len() && next.active[k] == id;
            if k < state.active.len() {
                assert(state.active[k] == id);
            } else {
                assert(all[k - state.active.len()] == id);
            }
        }
        if state.active.contains(id) {
            let k = choose|k: int| 0 <= k < state.active.len() && state.active[k] == id;
            assert(next.active[k] == id);
        }
        if all.contains(id) {
            let k = choose|k: int| 0 <= k < all.len() && all[k] == id;
            assert(next.active[state.active.len() + k] == id);
        }
    } else {
        lemma_left_over(state.active, all, id);
    }
}

proof fn lemma_left_over(active: Seq<Seq<char>>, gone: Seq<Seq<char>>, id: Seq<char>)
    ensures
        tracker::remaining(active, gone).contains(id) <==> active.contains(id) && !gone.contains(
            id,
        ),
{
    let keep = |id: Seq<char>| !gone.contains(id);
    if active.contains(id) && !gone.contains(id) {
        let k = choose|k: int| 0 <= k < active.len() && active[k] == id;
        active.lemma_filter_contains(keep, k);
    }
    if tracker::remaining(active, gone).contains(id) {
        active.lemma_filter_contains_rev(keep, id);
        let k = choose|k: int|
            0 <= k < active.filter(keep).len() && active.filter(keep)[k] == id;
        active.lemma_filter_pred(keep, k);
    }
}

/// Exactly one modifier set fires on a key: of two shortcuts that ask for the same key and
/// for different modifiers, no more than one is reported by one event.
pub proof fn lemma_one_modifier_set(
    state: TrackerState,
    event: RawKeyEvent,
    bindings: Seq<(Seq<char>, RegisteredShortcut)>,
    a: int,
    b: int,
)
    requires
        event.is_down,
        0 <= a < tracker::step(state, event, bindings).1.len(),
        0 <= b < tracker::step(state, event, bindings).1.len(),
    ensures
        ({
            let x = tracker::step(state, event, bindings).1[a].0.parsed;
            let y = tracker::step(state, event, bindings).1[b].0.parsed;
            x.ctrl == y.ctrl && x.alt == y.alt && x.shift == y.shift && x.meta == y.meta
        }),
{
    lemma_only_held_fire(state, event, bindings, a);
    lemma_only_held_fire(state, event, bindings, b);
}

proof fn lemma_conflict_found(
    shortcuts: Seq<RegisteredShortcut>,
    keys: ParsedShortcut,
    id: Seq<char>,
    from: int,
)
    requires
        0 <= from <= shortcuts.len(),
    ensures
        match tracker::conflict(shortcuts, keys, id, from) {
            Some(one) => one.parsed == keys && one.binding_id@ != id && exists|i: int|
                from <= i < shortcuts.len() && #[trigger] shortcuts[i] == one,
            None => forall|i: int|
                from <= i < shortcuts.len() ==> (#[trigger] shortcuts[i]).parsed != keys
                    || shortcuts[i].binding_id@ == id,
        },
    decreases shortcuts.len() - from,
{
    if from < shortcuts.len() {
        if shortcuts[from].parsed == keys && shortcuts[from].binding_id@ != id {
            assert(shortcuts[from] == tracker::conflict(shortcuts, keys, id, from)->0);
        } else {
            lemma_conflict_found(shortcuts, keys, id, from + 1);
        }
    }
}

/// A shortcut that cannot be read is refused with what is wrong with it. One that can is
/// refused exactly where another id has the very same keys, all modifiers included, and
/// what is said names such an id.
pub proof fn lemma_refused_where_in_use(
    bindings: Seq<(Seq<char>, RegisteredShortcut)>,
    id: Seq<char>,
    hotkey: Seq<char>,
)
    ensures
        match windows_hook::parsed(hotkey) {
            Err(message) => tracker::refusal(bindings, id, hotkey) == Some(message),
            Ok(keys) => {
                &&& tracker::refusal(bindings, id, hotkey) is Some <==> exists|i: int|
                    0 <= i < bindings.len() && (#[trigger] bindings[i]).1.parsed == keys
                        && bindings[i].1.binding_id@ != id
                &&& tracker::refusal(bindings, id, hotkey) matches Some(message) ==> exists|i: int|
                    {
                        &&& 0 <= i < bindings.len()
                        &&& (#[trigger] bindings[i]).1.parsed == keys
                        &&& bindings[i].1.binding_id@ != id
                        &&& message == "Shortcut '"@ + hotkey + "' is already in use by '"@
                            + bindings[i].1.binding_id@ + "'"@
                    }
            },
        },
{
    if let Ok(keys) = windows_hook::parsed(hotkey) {
        let values = table::values(bindings);
        lemma_conflict_found(values, keys, id, 0);
        match tracker::conflict(values, keys, id, 0) {
            Some(one) => {
                let i = choose|i: int| 0 <= i < values.len() && #[trigger] values[i] == one;
                assert(bindings[i].1 == one);
            },
            None => {
                assert forall|i: int| 0 <= i < bindings.len() implies (
                #[trigger] bindings[i]).1.parsed != keys || bindings[i].1.binding_id@ == id by {
                    assert(values[i] == bindings[i].1);
                }
            },
        }
    }
}

/// What registering does: a shortcut that is not refused stands under its id as it was
/// given, and nothing else changes; one that is refused changes nothing.
pub proof fn lemma_register_does(state: ManagerState, binding_id: String, hotkey_string: String)
    ensures
        ({
            let (after, reply) = manager::after_command(
                state,
                ManagerCommand::Register { binding_id, hotkey_string },
            );
            let refusal = tracker::refusal(state.bindings, binding_id@, hotkey_string@);
            &&& after.tracker == state.tracker
            &&& after.running == state.running
            &&& match refusal {
                Some(message) => after.bindings == state.bindings && reply == Some(
                    Err::<(), Seq<char>>(message),
                ),
                None => {
                    &&& reply == Some(Ok::<(), Seq<char>>(()))
                    &&& exists|shortcut: RegisteredShortcut|
                        {
                            &&& shortcut.binding_id@ == binding_id@
                            &&& shortcut.hotkey_string@ == hotkey_string@
                            &&& windows_hook::parsed(hotkey_string@) == Ok::<
                                ParsedShortcut,
                                Seq<char>,
                            >(shortcut.parsed)
                            &&& after.bindings == #[trigger] table::inserted(
                                state.bindings,
                                binding_id@,
                                shortcut,
                            )
                        }
                },
            }
        }),
{
    let (after, reply) = manager::after_command(
        state,
        ManagerCommand::Register { binding_id, hotkey_string },
    );
    if tracker::refusal(state.bindings, binding_id@, hotkey_string@) is None {
        let shortcut = RegisteredShortcut {
            binding_id,
            hotkey_string,
            parsed: windows_hook::parsed(hotkey_string@)->Ok_0,
        };
        assert(after.bindings == table::inserted(state.bindings, binding_id@, shortcut));
    }
}

/// What unregistering does: the id is no longer registered nor active, whatever it was,
/// and nothing else changes; it always succeeds.
pub proof fn lemma_unregister_does(state: ManagerState, binding_id: String, other: Seq<char>)
    ensures
        ({
            let (after, reply) = manager::after_command(
                state,
                ManagerCommand::Unregister { binding_id },
            );
            &&& reply == Some(Ok::<(), Seq<char>>(()))
            &&& after.bindings == table::removed(state.bindings, binding_id@)
            &&& after.tracker.held == state.tracker.held
            &&& after.tracker.active.contains(other) <==> state.tracker.active.contains(other)
                && other != binding_id@
            &&& after.running == state.running
        }),
{
    lemma_left_over(state.tracker.active, seq![binding_id@], other);
    assert(seq![binding_id@][0] == binding_id@);
    if seq![binding_id@].contains(other) {
        let k = choose|k: int| 0 <= k < 1 && seq![binding_id@][k] == other;
    }
}

/// Being told to shut down, and having nobody left to be told by, stop the thread and
/// change nothing else; waiting in vain changes nothing.
pub proof fn lemma_stopping_does(state: ManagerState)
    ensures
        ({
            let (after, reply) = manager::after_poll(
                state,
                Polled::Command(ManagerCommand::Shutdown),
            );
            &&& reply is None
            &&& !after.running
            &&& after.bindings == state.bindings
            &&& after.tracker == state.tracker
        }),
        ({
            let (after, reply) = manager::after_poll(state, Polled::Disconnected);
            &&& reply is None
            &&& !after.running
            &&& after.bindings == state.bindings
            &&& after.tracker == state.tracker
        }),
        manager::after_poll(state, Polled::TimedOut) == (state, None::<Result<(), Seq<char>>>),
{
}

/// A command that comes while the thread waits is carried out as it is.
pub proof fn lemma_polled_command(state: ManagerState, command: ManagerCommand)
    ensures
        manager::after_poll(state, Polled::Command(command)) == manager::after_command(
            state,
            command,
        ),
{
}

/// A key event goes to the tracker with the shortcuts that are registered, and changes
/// neither those nor whether the thread goes on.
pub proof fn lemma_key_event_does(state: ManagerState, event: RawKeyEvent)
    ensures
        ({
            let (after, reported) = manager::after_key(state, event);
            &&& (after.tracker, reported) == tracker::step(state.tracker, event, state.bindings)
            &&& after.bindings == state.bindings
            &&& after.running == state.running
        }),
{
}

} // verus!
