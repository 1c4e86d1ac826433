//! What holds of shortcuts over whole runs of commands and key events.

use super::manager;
use super::manager::{ManagerCommand, ManagerState, Polled};
use super::tracker;
use super::tracker::{RawKeyEvent, RegisteredShortcut, TrackerState};
use super::windows_hook;
use super::windows_hook::ParsedShortcut;
use crate::table;
use vstd::prelude::*;

verus! {

/// Whether every shortcut stands under its own id.
pub open spec fn keyed_by_id(bindings: Seq<(Seq<char>, RegisteredShortcut)>) -> bool {
    forall|i: int|
        0 <= i < bindings.len() ==> (#[trigger] bindings[i]).0 == bindings[i].1.binding_id@
}

/// Whether no two shortcuts ask for the same keys.
pub open spec fn distinct_chords(bindings: Seq<(Seq<char>, RegisteredShortcut)>) -> bool {
    forall|i: int, j: int|
        0 <= i < j < bindings.len() ==> (#[trigger] bindings[i]).1.parsed != (
        #[trigger] bindings[j]).1.parsed
}

/// Whether a report is of an id.
pub open spec fn of_id(id: Seq<char>) -> spec_fn((RegisteredShortcut, bool)) -> bool {
    |report: (RegisteredShortcut, bool)| report.0.binding_id@ == id
}

/// What is reported of one id, in order: `true` where its shortcut fires, `false`
/// where it ends.
pub open spec fn reports(reported: Seq<(RegisteredShortcut, bool)>, id: Seq<char>) -> Seq<bool> {
    reported.filter(of_id(id)).map_values(|report: (RegisteredShortcut, bool)| report.1)
}

/// The state and all reports after some key events.
pub open spec fn run(
    start: TrackerState,
    events: Seq<RawKeyEvent>,
    bindings: Seq<(Seq<char>, RegisteredShortcut)>,
) -> (TrackerState, Seq<(RegisteredShortcut, bool)>)
    decreases events.len(),
{
    if events.len() == 0 {
        (start, Seq::empty())
    } else {
        let (state, reported) = run(start, events.drop_last(), bindings);
        let (next, more) = tracker::step(state, events.last(), bindings);
        (next, reported + more)
    }
}

proof fn lemma_reports_add(
    a: Seq<(RegisteredShortcut, bool)>,
    b: Seq<(RegisteredShortcut, bool)>,
    id: Seq<char>,
)
    ensures
        reports(a + b, id) == reports(a, id) + reports(b, id),
{
    Seq::filter_distributes_over_add(a, b, of_id(id));
    assert(reports(a + b, id) =~= reports(a, id) + reports(b, id));
}

proof fn lemma_reports_one(only: (RegisteredShortcut, bool), id: Seq<char>)
    ensures
        reports(seq![only], id) == (if only.0.binding_id@ == id {
            seq![only.1]
        } else {
            Seq::empty()
        }),
{
    reveal(Seq::filter);
    let one = seq![only];
    assert(one.drop_last() =~= Seq::empty());
    assert(one.drop_last().filter(of_id(id)) =~= Seq::empty());
    if of_id(id)(only) {
        assert(one.filter(of_id(id)) =~= one);
        assert(reports(one, id) =~= seq![only.1]);
    } else {
        assert(one.filter(of_id(id)).len() == 0);
        assert(reports(one, id) =~= Seq::empty());
    }
}

proof fn lemma_reports_none(id: Seq<char>)
    ensures
        reports(Seq::empty(), id) == Seq::<bool>::empty(),
{
    reveal(Seq::filter);
    assert(reports(Seq::empty(), id) =~= Seq::<bool>::empty());
}

proof fn lemma_fired_reports(
    shortcuts: Seq<RegisteredShortcut>,
    active: Seq<Seq<char>>,
    held: Set<u32>,
    id: Seq<char>,
)
    ensures
        ({
            let now = tracker::fired(shortcuts, active, held);
            let said = reports(tracker::flagged(now, true), id);
            &&& said == Seq::<bool>::empty() || said == seq![true]
            &&& active.contains(id) ==> said.len() == 0
            &&& (active + tracker::ids(now)).contains(id) <==> active.contains(id) || said.len()
                == 1
        }),
    decreases shortcuts.len(),
{
    broadcast use vstd::seq_lib::group_seq_properties;

    let now = tracker::fired(shortcuts, active, held);
    if shortcuts.len() == 0 {
        assert(tracker::flagged(now, true) =~= Seq::empty());
        lemma_reports_none(id);
        assert(active + tracker::ids(now) =~= active);
    } else {
        let first = shortcuts[0];
        if !active.contains(first.binding_id@) && first.parsed.held_by(held) {
            let next_active = active.push(first.binding_id@);
            let tail = tracker::fired(shortcuts.skip(1), next_active, held);
            lemma_fired_reports(shortcuts.skip(1), next_active, held, id);
            assert(tracker::flagged(now, true) =~= seq![(first, true)] + tracker::flagged(
                tail,
                true,
            ));
            lemma_reports_add(seq![(first, true)], tracker::flagged(tail, true), id);
            lemma_reports_one((first, true), id);
            assert(active + tracker::ids(now) =~= next_active + tracker::ids(tail));
            assert(seq![true] + Seq::<bool>::empty() =~= seq![true]);
            assert(Seq::<bool>::empty() + reports(tracker::flagged(tail, true), id) =~= reports(
                tracker::flagged(tail, true),
                id,
            ));
        } else {
            lemma_fired_reports(shortcuts.skip(1), active, held, id);
        }
    }
}

proof fn lemma_ended_id(
    bindings: Seq<(Seq<char>, RegisteredShortcut)>,
    held: Set<u32>,
    id: Seq<char>,
)
    requires
        keyed_by_id(bindings),
        tracker::ended(bindings, held, id) is Some,
    ensures
        tracker::ended(bindings, held, id)->0.binding_id@ == id,
{
    table::lemma_lookup_some(bindings, id);
    let at = table::position(bindings, id, 0);
    table::lemma_position(bindings, id, 0);
    assert(bindings[at].0 == bindings[at].1.binding_id@);
}

proof fn lemma_released_reports(
    bindings: Seq<(Seq<char>, RegisteredShortcut)>,
    active: Seq<Seq<char>>,
    held: Set<u32>,
    id: Seq<char>,
)
    requires
        keyed_by_id(bindings),
        active.no_duplicates(),
    ensures
        ({
            let gone = tracker::released(bindings, active, held);
            let said = reports(tracker::flagged(gone, false), id);
            &&& said == (if active.contains(id) && tracker::ended(bindings, held, id) is Some {
                seq![false]
            } else {
                Seq::empty()
            })
            &&& tracker::ids(gone).contains(id) <==> said.len() == 1
        }),
    decreases active.len(),
{
    broadcast use vstd::seq_lib::group_seq_properties;

    let gone = tracker::released(bindings, active, held);
    if active.len() == 0 {
        assert(tracker::flagged(gone, false) =~= Seq::empty());
        lemma_reports_none(id);
    } else {
        let start = active.drop_last();
        let last = active.last();
        let before = tracker::released(bindings, start, held);
        lemma_released_reports(bindings, start, held, id);
        assert(active =~= start.push(last));
        assert(!start.contains(last)) by {
            if start.contains(last) {
                let k = choose|k: int| 0 <= k < start.len() && start[k] == last;
                assert(active[k] == active[active.len() - 1]);
            }
        }
        match tracker::ended(bindings, held, last) {
            Some(shortcut) => {
                lemma_ended_id(bindings, held, last);
                assert(gone =~= before.push(shortcut));
                assert(tracker::flagged(gone, false) =~= tracker::flagged(before, false) + seq![
                    (shortcut, false),
                ]);
                lemma_reports_add(tracker::flagged(before, false), seq![(shortcut, false)], id);
                lemma_reports_one((shortcut, false), id);
                assert(tracker::ids(gone) =~= tracker::ids(before).push(shortcut.binding_id@));
                assert(Seq::<bool>::empty() + seq![false] =~= seq![false]);
                assert(reports(tracker::flagged(before, false), id) + Seq::<bool>::empty()
                    =~= reports(tracker::flagged(before, false), id));
            },
            None => {
                assert(gone =~= before);
            },
        }
    }
}

proof fn lemma_remaining_contains(active: Seq<Seq<char>>, gone: Seq<Seq<char>>, id: Seq<char>)
    ensures
        tracker::remaining(active, gone).contains(id) <==> active.contains(id) && !gone.contains(
            id,
        ),
{
    let keep = |id: Seq<char>| !gone.contains(id);
    if active.contains(id) && !gone.contains(id) {
        let k = choose|k: int| 0 <= k < active.len() && active[k] == id;
        active.lemma_filter_contains(keep, k);
    }
    if tracker::remaining(active, gone).contains(id) {
        active.lemma_filter_contains_rev(keep, id);
        let k = choose|k: int|
            0 <= k < active.filter(keep).len() && active.filter(keep)[k] == id;
        active.lemma_filter_pred(keep, k);
    }
}

/// One key event reports of an id at most once. It fires only where it was not
/// active, and then is; it ends only where it was active, and then is not; and it
/// changes in no other way.
pub proof fn lemma_step_of_id(
    state: TrackerState,
    event: RawKeyEvent,
    bindings: Seq<(Seq<char>, RegisteredShortcut)>,
    id: Seq<char>,
)
    requires
        keyed_by_id(bindings),
        state.active.no_duplicates(),
    ensures
        ({
            let (next, reported) = tracker::step(state, event, bindings);
            let said = reports(reported, id);
            let before = state.active.contains(id);
            let after = next.active.contains(id);
            &&& next.active.no_duplicates()
            &&& said == (if before == after {
                Seq::<bool>::empty()
            } else {
                seq![after]
            })
            &&& !before && after ==> event.is_down
            &&& before && !after ==> !event.is_down
        }),
{
    let active = state.active;
    if event.is_down {
        let held = state.held.insert(event.vk_code);
        lemma_fired_reports(table::values(bindings), active, held, id);
        tracker::lemma_fired_fresh(table::values(bindings), active, held);
    } else {
        let held = state.held.remove(event.vk_code);
        let gone = tracker::ids(tracker::released(bindings, active, held));
        lemma_released_reports(bindings, active, held, id);
        lemma_remaining_contains(active, gone, id);
        tracker::lemma_filter_no_duplicates(active, |id: Seq<char>| !gone.contains(id));
    }
}

/// Over any run of key events, what is reported of an id is that its shortcut fires,
/// ends, fires again, and so on: a held shortcut fires once, and nothing ends that
/// has not fired. The id is active exactly where it fired last.
pub proof fn lemma_reports_alternate(
    events: Seq<RawKeyEvent>,
    bindings: Seq<(Seq<char>, RegisteredShortcut)>,
    id: Seq<char>,
)
    requires
        keyed_by_id(bindings),
    ensures
        ({
            let (state, reported) = run(tracker::idle(), events, bindings);
            let said = reports(reported, id);
            &&& state.active.no_duplicates()
            &&& forall|i: int| 0 <= i < said.len() ==> #[trigger] said[i] == (i % 2 == 0)
            &&& state.active.contains(id) <==> said.len() % 2 == 1
        }),
    decreases events.len(),
{
    if events.len() == 0 {
        lemma_reports_none(id);
    } else {
        lemma_reports_alternate(events.drop_last(), bindings, id);
        let (state, reported) = run(tracker::idle(), events.drop_last(), bindings);
        let (next, more) = tracker::step(state, events.last(), bindings);
        lemma_step_of_id(state, events.last(), bindings, id);
        lemma_reports_add(reported, more, id);
    }
}

/// Whether the last event of a key among some is that it goes down.
pub open spec fn went_down_last(events: Seq<RawKeyEvent>, key: u32) -> bool
    decreases events.len(),
{
    if events.len() == 0 {
        false
    } else if events.last().vk_code == key {
        events.last().is_down
    } else {
        went_down_last(events.drop_last(), key)
    }
}

/// After any run of key events, a key is held exactly where it went down last.
pub proof fn lemma_held_went_down_last(
    events: Seq<RawKeyEvent>,
    bindings: Seq<(Seq<char>, RegisteredShortcut)>,
    key: u32,
)
    ensures
        run(tracker::idle(), events, bindings).0.held.contains(key) <==> went_down_last(
            events,
            key,
        ),
    decreases events.len(),
{
    if events.len() > 0 {
        lemma_held_went_down_last(events.drop_last(), bindings, key);
    }
}

proof fn lemma_fired_all(
    shortcuts: Seq<RegisteredShortcut>,
    active: Seq<Seq<char>>,
    held: Set<u32>,
    i: int,
)
    requires
        0 <= i < shortcuts.len(),
        shortcuts[i].parsed.held_by(held),
    ensures
        (active + tracker::ids(tracker::fired(shortcuts, active, held))).contains(
            shortcuts[i].binding_id@,
        ),
    decreases shortcuts.len(),
{
    broadcast use vstd::seq_lib::group_seq_properties;

    let first = shortcuts[0];
    let rest = shortcuts.skip(1);
    let id = shortcuts[i].binding_id@;
    let now = tracker::fired(shortcuts, active, held);
    if !active.contains(first.binding_id@) && first.parsed.held_by(held) {
        let next_active = active.push(first.binding_id@);
        assert(active + tracker::ids(now) =~= next_active + tracker::ids(
            tracker::fired(rest, next_active, held),
        ));
        if i > 0 {
            assert(rest[i - 1] == shortcuts[i]);
            lemma_fired_all(rest, next_active, held, i - 1);
        }
    } else if i > 0 {
        assert(rest[i - 1] == shortcuts[i]);
        lemma_fired_all(rest, active, held, i - 1);
    }
}

/// Once a key went down, every registered shortcut whose keys are held is active.
pub proof fn lemma_held_is_active_after_down(
    state: TrackerState,
    event: RawKeyEvent,
    bindings: Seq<(Seq<char>, RegisteredShortcut)>,
    i: int,
)
    requires
        event.is_down,
        0 <= i < bindings.len(),
        bindings[i].1.parsed.held_by(state.held.insert(event.vk_code)),
    ensures
        tracker::step(state, event, bindings).0.active.contains(bindings[i].1.binding_id@),
{
    let values = table::values(bindings);
    assert(values[i] == bindings[i].1);
    lemma_fired_all(values, state.active, state.held.insert(event.vk_code), i);
}

/// Once a key went up, the keys of every active shortcut that is registered are held.
pub proof fn lemma_active_is_held_after_up(
    state: TrackerState,
    event: RawKeyEvent,
    bindings: Seq<(Seq<char>, RegisteredShortcut)>,
    id: Seq<char>,
)
    requires
        keyed_by_id(bindings),
        state.active.no_duplicates(),
        !event.is_down,
        tracker::step(state, event, bindings).0.active.contains(id),
    ensures
        table::lookup(bindings, id) matches Some(shortcut) ==> shortcut.parsed.held_by(
            state.held.remove(event.vk_code),
        ),
{
    let held = state.held.remove(event.vk_code);
    let gone = tracker::ids(tracker::released(bindings, state.active, held));
    lemma_released_reports(bindings, state.active, held, id);
    lemma_remaining_contains(state.active, gone, id);
}

/// What every state of the thread behind a keyboard hook has: each shortcut stands
/// under its own id, no id and no keys occur twice, and no id is active twice.
pub open spec fn sound(state: ManagerState) -> bool {
    &&& keyed_by_id(state.bindings)
    &&& table::distinct_keys(state.bindings)
    &&& distinct_chords(state.bindings)
    &&& state.tracker.active.no_duplicates()
}

/// Something that the thread behind a keyboard hook takes in.
pub enum Input {
    Poll(Polled),
    Key(RawKeyEvent),
}

/// The state after some inputs.
pub open spec fn after_inputs(inputs: Seq<Input>) -> ManagerState
    decreases inputs.len(),
{
    if inputs.len() == 0 {
        ManagerState { bindings: Seq::empty(), tracker: tracker::idle(), running: true }
    } else {
        let before = after_inputs(inputs.drop_last());
        match inputs.last() {
            Input::Poll(polled) => manager::after_poll(before, polled).0,
            Input::Key(event) => manager::after_key(before, event).0,
        }
    }
}

proof fn lemma_no_conflict(
    shortcuts: Seq<RegisteredShortcut>,
    keys: ParsedShortcut,
    id: Seq<char>,
    from: int,
    i: int,
)
    requires
        0 <= from <= i < shortcuts.len(),
        tracker::conflict(shortcuts, keys, id, from) is None,
    ensures
        shortcuts[i].parsed == keys ==> shortcuts[i].binding_id@ == id,
    decreases i - from,
{
    if from < i {
        lemma_no_conflict(shortcuts, keys, id, from + 1, i);
    }
}

/// A command keeps the state sound.
pub proof fn lemma_command_keeps_sound(state: ManagerState, command: ManagerCommand)
    requires
        sound(state),
    ensures
        sound(manager::after_command(state, command).0),
{
    let bindings = state.bindings;
    match command {
        ManagerCommand::Register { binding_id, hotkey_string } => {
            let id = binding_id@;
            if tracker::refusal(bindings, id, hotkey_string@) is None {
                let keys = windows_hook::parsed(hotkey_string@)->Ok_0;
                let shortcut = RegisteredShortcut { binding_id, hotkey_string, parsed: keys };
                let after = table::inserted(bindings, id, shortcut);
                table::lemma_lookup_inserted(bindings, id, shortcut, id);
                table::lemma_position(bindings, id, 0);
                let at = table::position(bindings, id, 0);
                assert forall|i: int| 0 <= i < bindings.len() && i != at implies (
                #[trigger] bindings[i]).1.parsed != keys by {
                    assert(table::values(bindings)[i] == bindings[i].1);
                    lemma_no_conflict(table::values(bindings), keys, id, 0, i);
                    if at < bindings.len() {
                        assert(bindings[at].0 == id);
                    }
                }
                assert(keyed_by_id(after));
                assert(distinct_chords(after));
            }
        },
        ManagerCommand::Unregister { binding_id } => {
            let id = binding_id@;
            table::lemma_lookup_removed(bindings, id, id);
            table::lemma_position(bindings, id, 0);
            let gone = seq![id];
            tracker::lemma_filter_no_duplicates(
                state.tracker.active,
                |id: Seq<char>| !gone.contains(id),
            );
        },
        ManagerCommand::Shutdown => {},
    }
}

/// Every state that can be reached is sound.
pub proof fn lemma_reachable_is_sound(inputs: Seq<Input>)
    ensures
        sound(after_inputs(inputs)),
    decreases inputs.len(),
{
    if inputs.len() > 0 {
        let before = after_inputs(inputs.drop_last());
        lemma_reachable_is_sound(inputs.drop_last());
        match inputs.last() {
            Input::Poll(polled) => match polled {
                Polled::Command(command) => lemma_command_keeps_sound(before, command),
                Polled::TimedOut => {},
                Polled::Disconnected => {},
            },
            Input::Key(event) => lemma_step_of_id(
                before.tracker,
                event,
                before.bindings,
                Seq::empty(),
            ),
        }
    }
}

/// A thread that is to stop is never started again by what it takes in.
pub proof fn lemma_stopped_for_good(inputs: Seq<Input>, input: Input)
    requires
        !after_inputs(inputs).running,
    ensures
        !after_inputs(inputs.push(input)).running,
{
    assert(inputs.push(input).drop_last() =~= inputs);
}

/// A shortcut that was registered is found under its id; those under other ids stay.
pub proof fn lemma_registered_is_found(
    state: ManagerState,
    binding_id: String,
    hotkey_string: String,
    other: Seq<char>,
)
    requires
        sound(state),
        tracker::refusal(state.bindings, binding_id@, hotkey_string@) is None,
    ensures
        ({
            let after = manager::after_command(
                state,
                ManagerCommand::Register { binding_id, hotkey_string },
            ).0;
            if other == binding_id@ {
                table::lookup(after.bindings, other) == Some(
                    RegisteredShortcut {
                        binding_id,
                        hotkey_string,
                        parsed: windows_hook::parsed(hotkey_string@)->Ok_0,
                    },
                )
            } else {
                table::lookup(after.bindings, other) == table::lookup(state.bindings, other)
            }
        }),
{
    table::lemma_lookup_inserted(
        state.bindings,
        binding_id@,
        RegisteredShortcut {
            binding_id,
            hotkey_string,
            parsed: windows_hook::parsed(hotkey_string@)->Ok_0,
        },
        other,
    );
}

/// What was unregistered is not found, is not active, and is not reported by the
/// next key event, whatever it is; what is under other ids stays.
pub proof fn lemma_unregistered_is_silent(
    state: ManagerState,
    binding_id: String,
    event: RawKeyEvent,
    other: Seq<char>,
)
    requires
        sound(state),
    ensures
        ({
            let after = manager::after_command(
                state,
                ManagerCommand::Unregister { binding_id },
            ).0;
            &&& table::lookup(after.bindings, binding_id@) is None
            &&& !after.tracker.active.contains(binding_id@)
            &&& reports(manager::after_key(after, event).1, binding_id@) == Seq::<bool>::empty()
            &&& other != binding_id@ ==> {
                &&& table::lookup(after.bindings, other) == table::lookup(state.bindings, other)
                &&& after.tracker.active.contains(other) == state.tracker.active.contains(other)
            }
        }),
{
    broadcast use vstd::seq_lib::group_seq_properties;

    let id = binding_id@;
    let command = ManagerCommand::Unregister { binding_id };
    let after = manager::after_command(state, command).0;
    lemma_command_keeps_sound(state, command);
    table::lemma_lookup_removed(state.bindings, id, id);
    table::lemma_lookup_removed(state.bindings, id, other);
    lemma_remaining_contains(state.tracker.active, seq![id], id);
    lemma_remaining_contains(state.tracker.active, seq![id], other);
    assert(seq![id].contains(id)) by {
        assert(seq![id][0] == id);
    }
    lemma_step_of_id(after.tracker, event, after.bindings, id);
    let next = manager::after_key(after, event).0;
    if event.is_down {
        let held = after.tracker.held.insert(event.vk_code);
        lemma_fired_registered(table::values(after.bindings), after.tracker.active, held, id);
        assert forall|i: int| 0 <= i < table::values(after.bindings).len() implies (
        #[trigger] table::values(after.bindings)[i]).binding_id@ != id by {
            table::lemma_lookup_some(after.bindings, id);
            assert(after.bindings[i].0 == after.bindings[i].1.binding_id@);
        }
    }
}

proof fn lemma_fired_registered(
    shortcuts: Seq<RegisteredShortcut>,
    active: Seq<Seq<char>>,
    held: Set<u32>,
    id: Seq<char>,
)
    ensures
        (active + tracker::ids(tracker::fired(shortcuts, active, held))).contains(id)
            ==> active.contains(id) || exists|i: int|
            0 <= i < shortcuts.len() && (#[trigger] shortcuts[i]).binding_id@ == id,
    decreases shortcuts.len(),
{
    broadcast use vstd::seq_lib::group_seq_properties;

    let now = tracker::fired(shortcuts, active, held);
    if shortcuts.len() == 0 {
        assert(active + tracker::ids(now) =~= active);
    } else {
        let first = shortcuts[0];
        let rest = shortcuts.skip(1);
        assert(forall|i: int| 0 <= i < rest.len() ==> #[trigger] rest[i] == shortcuts[i + 1]);
        let fires = !active.contains(first.binding_id@) && first.parsed.held_by(held);
        let next_active = if fires {
            active.push(first.binding_id@)
        } else {
            active
        };
        lemma_fired_registered(rest, next_active, held, id);
        let later = tracker::fired(rest, next_active, held);
        assert(active + tracker::ids(now) =~= next_active + tracker::ids(later));
        if (active + tracker::ids(now)).contains(id) && !active.contains(id) {
            if !next_active.contains(id) {
                let i = choose|i: int|
                    0 <= i < rest.len() && (#[trigger] rest[i]).binding_id@ == id;
                assert(shortcuts[i + 1].binding_id@ == id);
            }
        }
    }
}

/// What is reported of an id over some inputs, since it was last unregistered.
pub open spec fn said_since(inputs: Seq<Input>, id: Seq<char>) -> Seq<bool>
    decreases inputs.len(),
{
    if inputs.len() == 0 {
        Seq::empty()
    } else {
        let before = said_since(inputs.drop_last(), id);
        match inputs.last() {
            Input::Key(event) => before + reports(
                manager::after_key(after_inputs(inputs.drop_last()), event).1,
                id,
            ),
            Input::Poll(Polled::Command(ManagerCommand::Unregister { binding_id })) => {
                if binding_id@ == id {
                    Seq::empty()
                } else {
                    before
                }
            },
            Input::Poll(_) => before,
        }
    }
}

/// Whatever commands and key events come, what is reported of an id since it was last
/// unregistered is that its shortcut fires, ends, fires again, and so on. The id is
/// active exactly where it fired last.
pub proof fn lemma_inputs_alternate(inputs: Seq<Input>, id: Seq<char>)
    ensures
        ({
            let said = said_since(inputs, id);
            &&& forall|i: int| 0 <= i < said.len() ==> #[trigger] said[i] == (i % 2 == 0)
            &&& after_inputs(inputs).tracker.active.contains(id) <==> said.len() % 2 == 1
        }),
    decreases inputs.len(),
{
    if inputs.len() > 0 {
        let before = after_inputs(inputs.drop_last());
        lemma_inputs_alternate(inputs.drop_last(), id);
        lemma_reachable_is_sound(inputs.drop_last());
        match inputs.last() {
            Input::Key(event) => lemma_step_of_id(before.tracker, event, before.bindings, id),
            Input::Poll(polled) => match polled {
                Polled::Command(ManagerCommand::Unregister { binding_id }) => {
                    lemma_remaining_contains(before.tracker.active, seq![binding_id@], id);
                    assert(seq![binding_id@][0] == binding_id@);
                },
                _ => {},
            },
        }
    }
}

} // verus!
