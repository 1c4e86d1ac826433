//! Which shortcuts fire and end as keys go down and up.

use super::windows_hook;
use super::windows_hook::{parse_shortcut, ParsedShortcut};
use crate::table;
use crate::table::StringTable;
use crate::text::same_str;
use std::collections::HashSet;
use vstd::prelude::*;

verus! {

/// A shortcut under the id of what it is bound to.
#[derive(Debug)]
pub struct RegisteredShortcut {
    pub binding_id: String,
    pub hotkey_string: String,
    pub parsed: ParsedShortcut,
}

impl Clone for RegisteredShortcut {
    fn clone(&self) -> (r: Self)
        ensures
            r == *self,
    {
        RegisteredShortcut {
            binding_id: self.binding_id.clone(),
            hotkey_string: self.hotkey_string.clone(),
            parsed: self.parsed,
        }
    }
}

/// A key that went down or up.
#[derive(Clone, Copy, Debug)]
pub struct RawKeyEvent {
    pub vk_code: u32,
    pub is_down: bool,
}

/// The keys held down, and the ids of the shortcuts that have fired and not ended,
/// in the order in which they fired.
pub struct TrackerState {
    pub held: Set<u32>,
    pub active: Seq<Seq<char>>,
}

/// The state before any key event.
pub open spec fn idle() -> TrackerState {
    TrackerState { held: Set::empty(), active: Seq::empty() }
}

/// The ids of some shortcuts.
pub open spec fn ids(shortcuts: Seq<RegisteredShortcut>) -> Seq<Seq<char>> {
    shortcuts.map_values(|shortcut: RegisteredShortcut| shortcut.binding_id@)
}

/// The shortcuts that fire: those whose keys are held and whose id is not active,
/// nor has fired in the same go.
pub open spec fn fired(
    shortcuts: Seq<RegisteredShortcut>,
    active: Seq<Seq<char>>,
    held: Set<u32>,
) -> Seq<RegisteredShortcut>
    decreases shortcuts.len(),
{
    if shortcuts.len() == 0 {
        Seq::empty()
    } else {
        let first = shortcuts[0];
        if !active.contains(first.binding_id@) && first.parsed.held_by(held) {
            seq![first] + fired(shortcuts.skip(1), active.push(first.binding_id@), held)
        } else {
            fired(shortcuts.skip(1), active, held)
        }
    }
}

/// The shortcut under an active id, if it is registered and its keys are no longer
/// held.
pub open spec fn ended(
    bindings: Seq<(Seq<char>, RegisteredShortcut)>,
    held: Set<u32>,
    id: Seq<char>,
) -> Option<RegisteredShortcut> {
    match table::lookup(bindings, id) {
        Some(shortcut) => if shortcut.parsed.held_by(held) {
            None
        } else {
            Some(shortcut)
        },
        None => None,
    }
}

/// The shortcuts that end, in the order in which they fired.
pub open spec fn released(
    bindings: Seq<(Seq<char>, RegisteredShortcut)>,
    active: Seq<Seq<char>>,
    held: Set<u32>,
) -> Seq<RegisteredShortcut> {
    active.filter_map(|id: Seq<char>| ended(bindings, held, id))
}

/// The ids in `active` that are not in `gone`.
pub open spec fn remaining(active: Seq<Seq<char>>, gone: Seq<Seq<char>>) -> Seq<Seq<char>> {
    active.filter(|id: Seq<char>| !gone.contains(id))
}

/// The shortcuts with a flag beside each.
pub open spec fn flagged(shortcuts: Seq<RegisteredShortcut>, is_pressed: bool) -> Seq<
    (RegisteredShortcut, bool),
> {
    shortcuts.map_values(|shortcut: RegisteredShortcut| (shortcut, is_pressed))
}

/// What a key event makes of the state, and what it reports: the shortcuts that
/// fire, with `true`, when a key goes down, and those that end, with `false`, when
/// one goes up.
pub open spec fn step(
    state: TrackerState,
    event: RawKeyEvent,
    bindings: Seq<(Seq<char>, RegisteredShortcut)>,
) -> (TrackerState, Seq<(RegisteredShortcut, bool)>) {
    if event.is_down {
        let held = state.held.insert(event.vk_code);
        let now = fired(table::values(bindings), state.active, held);
        (TrackerState { held, active: state.active + ids(now) }, flagged(now, true))
    } else {
        let held = state.held.remove(event.vk_code);
        let gone = released(bindings, state.active, held);
        (TrackerState { held, active: remaining(state.active, ids(gone)) }, flagged(gone, false))
    }
}

/// Follows the keys held down and the shortcuts that have fired.
pub struct ShortcutTracker {
    pressed_keys: HashSet<u32>,
    active_bindings: Vec<String>,
}

impl View for ShortcutTracker {
    type V = TrackerState;

    closed spec fn view(&self) -> TrackerState {
        TrackerState {
            held: self.pressed_keys@,
            active: self.active_bindings@.map_values(|id: String| id@),
        }
    }
}

impl Default for ShortcutTracker {
    fn default() -> (r: Self)
        ensures
            r.wf(),
            r@ == idle(),
    {
        broadcast use vstd::std_specs::hash::group_hash_axioms;

        let r = ShortcutTracker { pressed_keys: HashSet::new(), active_bindings: Vec::new() };
        assert(r@.active =~= Seq::<Seq<char>>::empty());
        r
    }
}

proof fn lemma_fired_take(
    shortcuts: Seq<RegisteredShortcut>,
    active: Seq<Seq<char>>,
    held: Set<u32>,
    n: int,
)
    requires
        0 <= n < shortcuts.len(),
    ensures
        ({
            let before = fired(shortcuts.take(n), active, held);
            let now_active = active + ids(before);
            fired(shortcuts.take(n + 1), active, held) == if !now_active.contains(
                shortcuts[n].binding_id@,
            ) && shortcuts[n].parsed.held_by(held) {
                before.push(shortcuts[n])
            } else {
                before
            }
        }),
    decreases n,
{
    let first = shortcuts[0];
    let more = shortcuts.take(n + 1);
    assert(more[0] == first);
    assert(more.skip(1) =~= shortcuts.skip(1).take(n));
    if n == 0 {
        assert(fired(more.skip(1), active, held) =~= Seq::empty());
        assert(fired(more.skip(1), active.push(first.binding_id@), held) =~= Seq::empty());
        assert(fired(shortcuts.take(0), active, held) =~= Seq::empty());
        assert(active + ids(Seq::<RegisteredShortcut>::empty()) =~= active);
        assert(seq![first] + Seq::<RegisteredShortcut>::empty() =~= Seq::<
            RegisteredShortcut,
        >::empty().push(first));
    } else {
        let rest = shortcuts.skip(1);
        assert(shortcuts.take(n).skip(1) =~= rest.take(n - 1));
        assert(shortcuts.take(n)[0] == first);
        assert(rest[n - 1] == shortcuts[n]);
        if !active.contains(first.binding_id@) && first.parsed.held_by(held) {
            let next_active = active.push(first.binding_id@);
            lemma_fired_take(rest, next_active, held, n - 1);
            let tail = fired(rest.take(n - 1), next_active, held);
            assert(next_active + ids(tail) =~= active + ids(seq![first] + tail));
            assert((seq![first] + tail).push(shortcuts[n]) =~= seq![first] + tail.push(
                shortcuts[n],
            ));
        } else {
            lemma_fired_take(rest, active, held, n - 1);
        }
    }
}

impl ShortcutTracker {
    /// No id is active twice.
    pub open spec fn wf(&self) -> bool {
        self@.active.no_duplicates()
    }

    /// Tells whether a shortcut has fired and not ended.
    fn is_active(&self, binding_id: &str) -> (r: bool)
        ensures
            r == self@.active.contains(binding_id@),
    {
        let mut i: usize = 0;
        while i < self.active_bindings.len()
            invariant
                i <= self.active_bindings.len(),
                forall|j: int| 0 <= j < i ==> #[trigger] self@.active[j] != binding_id@,
            decreases self.active_bindings.len() - i,
        {
            assert(self@.active[i as int] == self.active_bindings@[i as int]@);
            if same_str(self.active_bindings[i].as_str(), binding_id) {
                return true;
            }
            i += 1;
        }
        assert(self@.active.len() == self.active_bindings@.len());
        false
    }

    /// Drops the ids in `gone` from the active ones.
    fn deactivate(&mut self, gone: &Vec<String>)
        requires
            old(self).wf(),
        ensures
            final(self).wf(),
            final(self)@.held == old(self)@.held,
            final(self)@.active == remaining(
                old(self)@.active,
                gone@.map_values(|id: String| id@),
            ),
    {
        let ghost active = self@.active;
        let ghost gone_ids = gone@.map_values(|id: String| id@);
        let ghost keep = |id: Seq<char>| !gone_ids.contains(id);
        let mut kept: Vec<String> = Vec::new();
        let mut i: usize = 0;
        assert(kept@.map_values(|id: String| id@) =~= remaining(active.take(0), gone_ids));
        while i < self.active_bindings.len()
            invariant
                i <= self.active_bindings.len(),
                self@.active == active,
                gone_ids == gone@.map_values(|id: String| id@),
                keep == (|id: Seq<char>| !gone_ids.contains(id)),
                kept@.map_values(|id: String| id@) == remaining(active.take(i as int), gone_ids),
            decreases self.active_bindings.len() - i,
        {
            let id = self.active_bindings[i].clone();
            assert(active[i as int] == id@);
            assert(active.take(i + 1).drop_last() =~= active.take(i as int));
            let ghost before = kept@;
            if !contains_string(gone, id.as_str()) {
                kept.push(id);
                assert(kept@.map_values(|id: String| id@) =~= before.map_values(
                    |id: String| id@,
                ).push(active[i as int]));
            }
            reveal(Seq::filter);
            assert(active.take(i + 1).filter(keep) == if keep(active[i as int]) {
                active.take(i as int).filter(keep).push(active[i as int])
            } else {
                active.take(i as int).filter(keep)
            });
            i += 1;
        }
        assert(active.take(i as int) =~= active);
        proof {
            lemma_filter_no_duplicates(active, keep);
        }
        self.active_bindings = kept;
    }

    /// Takes a key event into account, and reports the shortcuts that fire, with
    /// `true`, or end, with `false`.
    pub fn apply(
        &mut self,
        event: RawKeyEvent,
        bindings: &StringTable<RegisteredShortcut>,
    ) -> (r: Vec<(RegisteredShortcut, bool)>)
        requires
            old(self).wf(),
        ensures
            final(self).wf(),
            (final(self)@, r@) == step(old(self)@, event, bindings.entries()),
    {
        broadcast use vstd::std_specs::hash::group_hash_axioms;

        let ghost active = self@.active;
        let ghost values = table::values(bindings.entries());
        let mut r: Vec<(RegisteredShortcut, bool)> = Vec::new();
        let mut i: usize = 0;
        if event.is_down {
            self.pressed_keys.insert(event.vk_code);
            let ghost held = self@.held;
            assert(fired(values.take(0), active, held) =~= Seq::empty());
            assert(active + ids(Seq::<RegisteredShortcut>::empty()) =~= active);
            assert(r@ =~= flagged(fired(values.take(0), active, held), true));
            while i < bindings.len()
                invariant
                    i <= bindings.entries().len(),
                    values == table::values(bindings.entries()),
                    self@.held == held,
                    self@.active == active + ids(fired(values.take(i as int), active, held)),
                    r@ == flagged(fired(values.take(i as int), active, held), true),
                decreases bindings.entries().len() - i,
            {
                let shortcut = bindings.value_at(i);
                assert(*shortcut == values[i as int]);
                let ghost before = fired(values.take(i as int), active, held);
                proof {
                    lemma_fired_take(values, active, held, i as int);
                }
                if !self.is_active(shortcut.binding_id.as_str()) && shortcut.parsed.matches(
                    &self.pressed_keys,
                ) {
                    self.active_bindings.push(shortcut.binding_id.clone());
                    assert(self@.active =~= (active + ids(before)).push(shortcut.binding_id@));
                    assert(self@.active =~= active + ids(before.push(*shortcut)));
                    r.push((shortcut.clone(), true));
                    assert(r@ =~= flagged(before.push(*shortcut), true));
                }
                i += 1;
            }
            assert(values.take(i as int) =~= values);
            proof {
                lemma_fired_fresh(values, active, held);
            }
            r
        } else {
            self.pressed_keys.remove(&event.vk_code);
            let ghost held = self@.held;
            let ghost ending = |id: Seq<char>| ended(bindings.entries(), held, id);
            let mut gone: Vec<String> = Vec::new();
            assert(active.take(0).filter_map(ending) =~= Seq::empty());
            assert(r@ =~= flagged(active.take(0).filter_map(ending), false));
            assert(gone@.map_values(|id: String| id@) =~= ids(active.take(0).filter_map(ending)));
            while i < self.active_bindings.len()
                invariant
                    i <= self.active_bindings.len(),
                    self@.held == held,
                    self@.active == active,
                    ending == (|id: Seq<char>| ended(bindings.entries(), held, id)),
                    gone@.map_values(|id: String| id@) == ids(
                        active.take(i as int).filter_map(ending),
                    ),
                    r@ == flagged(active.take(i as int).filter_map(ending), false),
                decreases self.active_bindings.len() - i,
            {
                assert(self.active_bindings@[i as int]@ == active[i as int]);
                let ghost before = active.take(i as int).filter_map(ending);
                proof {
                    active.lemma_filter_map_take_succ(ending, i as int);
                }
                if let Some(shortcut) = bindings.get(self.active_bindings[i].as_str()) {
                    if !shortcut.parsed.matches(&self.pressed_keys) {
                        let ghost gone_before = gone@;
                        gone.push(shortcut.binding_id.clone());
                        assert(gone@.map_values(|id: String| id@) =~= gone_before.map_values(
                            |id: String| id@,
                        ).push(shortcut.binding_id@));
                        r.push((shortcut.clone(), false));
                        assert(active.take(i + 1).filter_map(ending) =~= before.push(*shortcut));
                        assert(ids(before.push(*shortcut)) =~= ids(before).push(
                            shortcut.binding_id@,
                        ));
                        assert(r@ =~= flagged(before.push(*shortcut), false));
                    } else {
                        assert(active.take(i + 1).filter_map(ending) =~= before);
                    }
                } else {
                    assert(active.take(i + 1).filter_map(ending) =~= before);
                }
                i += 1;
            }
            assert(active.take(i as int) =~= active);
            self.deactivate(&gone);
            r
        }
    }

    /// Forgets that a shortcut has fired.
    pub fn remove_binding(&mut self, binding_id: &str)
        requires
            old(self).wf(),
        ensures
            final(self).wf(),
            final(self)@ == (TrackerState {
                held: old(self)@.held,
                active: remaining(old(self)@.active, seq![binding_id@]),
            }),
    {
        let mut gone: Vec<String> = Vec::new();
        gone.push(binding_id.to_owned());
        assert(gone@.map_values(|id: String| id@) =~= seq![binding_id@]);
        self.deactivate(&gone);
    }
}

/// Tells whether a string is among some strings.
fn contains_string(strings: &Vec<String>, s: &str) -> (r: bool)
    ensures
        r == strings@.map_values(|t: String| t@).contains(s@),
{
    let ghost all = strings@.map_values(|t: String| t@);
    let mut i: usize = 0;
    while i < strings.len()
        invariant
            i <= strings.len(),
            all == strings@.map_values(|t: String| t@),
            forall|j: int| 0 <= j < i ==> #[trigger] all[j] != s@,
        decreases strings.len() - i,
    {
        assert(all[i as int] == strings@[i as int]@);
        if same_str(strings[i].as_str(), s) {
            return true;
        }
        i += 1;
    }
    false
}

/// Picking elements out of distinct ones leaves them distinct.
pub proof fn lemma_filter_no_duplicates<A>(s: Seq<A>, keep: spec_fn(A) -> bool)
    requires
        s.no_duplicates(),
    ensures
        s.filter(keep).no_duplicates(),
    decreases s.len(),
{
    reveal(Seq::filter);
    if s.len() > 0 {
        let start = s.drop_last();
        lemma_filter_no_duplicates(start, keep);
        assert forall|i: int| 0 <= i < start.filter(keep).len() implies #[trigger] start.filter(
            keep,
        )[i] != s.last() by {
            start.lemma_filter_contains_rev(keep, start.filter(keep)[i]);
        }
    }
}

/// No id is active twice after shortcuts have fired.
pub proof fn lemma_fired_fresh(
    shortcuts: Seq<RegisteredShortcut>,
    active: Seq<Seq<char>>,
    held: Set<u32>,
)
    requires
        active.no_duplicates(),
    ensures
        (active + ids(fired(shortcuts, active, held))).no_duplicates(),
    decreases shortcuts.len(),
{
    if shortcuts.len() == 0 {
        assert(active + ids(fired(shortcuts, active, held)) =~= active);
    } else {
        let first = shortcuts[0];
        if !active.contains(first.binding_id@) && first.parsed.held_by(held) {
            let next_active = active.push(first.binding_id@);
            lemma_fired_fresh(shortcuts.skip(1), next_active, held);
            let tail = fired(shortcuts.skip(1), next_active, held);
            assert(next_active + ids(tail) =~= active + ids(seq![first] + tail));
        } else {
            lemma_fired_fresh(shortcuts.skip(1), active, held);
        }
    }
}

/// The first shortcut from `from` on that asks for the given keys under another id.
pub open spec fn conflict(
    shortcuts: Seq<RegisteredShortcut>,
    keys: ParsedShortcut,
    id: Seq<char>,
    from: int,
) -> Option<RegisteredShortcut>
    decreases shortcuts.len() - from,
{
    if from < 0 || from >= shortcuts.len() {
        None
    } else if shortcuts[from].parsed == keys && shortcuts[from].binding_id@ != id {
        Some(shortcuts[from])
    } else {
        conflict(shortcuts, keys, id, from + 1)
    }
}

/// What is said of a shortcut that is in use under another id.
pub open spec fn in_use_message(hotkey: Seq<char>, id: Seq<char>) -> Seq<char> {
    "Shortcut '"@ + hotkey + "' is already in use by '"@ + id + "'"@
}

/// Why a shortcut cannot be registered under an id, if it cannot.
pub open spec fn refusal(
    bindings: Seq<(Seq<char>, RegisteredShortcut)>,
    id: Seq<char>,
    hotkey: Seq<char>,
) -> Option<Seq<char>> {
    match windows_hook::parsed(hotkey) {
        Err(message) => Some(message),
        Ok(keys) => match conflict(table::values(bindings), keys, id, 0) {
            Some(existing) => Some(in_use_message(hotkey, existing.binding_id@)),
            None => None,
        },
    }
}

/// Finds the first shortcut that asks for the given keys under another id.
fn find_conflict<'a>(
    bindings: &'a StringTable<RegisteredShortcut>,
    keys: ParsedShortcut,
    id: &str,
) -> (r: Option<&'a RegisteredShortcut>)
    ensures
        match r {
            Some(existing) => conflict(table::values(bindings.entries()), keys, id@, 0) == Some(
                *existing,
            ),
            None => conflict(table::values(bindings.entries()), keys, id@, 0) is None,
        },
{
    let ghost values = table::values(bindings.entries());
    let mut i: usize = 0;
    while i < bindings.len()
        invariant
            i <= bindings.entries().len(),
            values == table::values(bindings.entries()),
            conflict(values, keys, id@, 0) == conflict(values, keys, id@, i as int),
        decreases bindings.entries().len() - i,
    {
        let shortcut = bindings.value_at(i);
        assert(*shortcut == values[i as int]);
        if shortcut.parsed == keys && !same_str(shortcut.binding_id.as_str(), id) {
            return Some(shortcut);
        }
        i += 1;
    }
    None
}

/// Registers a shortcut under an id, in the place of the one under that id, unless
/// it cannot be read or is in use under another id.
pub fn register_binding(
    bindings: &mut StringTable<RegisteredShortcut>,
    binding_id: String,
    hotkey_string: String,
) -> (r: Result<(), String>)
    requires
        old(bindings).wf(),
    ensures
        final(bindings).wf(),
        match r {
            Ok(_) => {
                &&& refusal(old(bindings).entries(), binding_id@, hotkey_string@) is None
                &&& final(bindings).entries() == table::inserted(
                    old(bindings).entries(),
                    binding_id@,
                    (RegisteredShortcut {
                        binding_id,
                        hotkey_string,
                        parsed: windows_hook::parsed(hotkey_string@)->Ok_0,
                    }),
                )
            },
            Err(message) => {
                &&& refusal(old(bindings).entries(), binding_id@, hotkey_string@) == Some(message@)
                &&& final(bindings).entries() == old(bindings).entries()
            },
        },
{
    let parsed = match parse_shortcut(hotkey_string.as_str()) {
        Ok(parsed) => parsed,
        Err(message) => {
            return Err(message);
        },
    };
    if let Some(existing) = find_conflict(bindings, parsed, binding_id.as_str()) {
        let mut message = "Shortcut '".to_owned();
        message.append(hotkey_string.as_str());
        message.append("' is already in use by '");
        message.append(existing.binding_id.as_str());
        message.append("'");
        return Err(message);
    }
    bindings.insert(
        binding_id.clone(),
        RegisteredShortcut { binding_id, hotkey_string, parsed },
    );
    Ok(())
}

} // verus!
