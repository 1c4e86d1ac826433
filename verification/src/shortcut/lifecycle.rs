//! Starting and stopping a keyboard hook, and what its callers are told.

use crate::settings::ShortcutBinding;
use crate::table;
use crate::table::StringTable;
use crate::text::same_str;
use vstd::prelude::*;

verus! {

/// How the thread behind a hook has answered its start.
#[derive(Debug)]
pub enum Ready {
    Started,
    Failed(String),
    TimedOut(String),
}

/// What came of sending a command to the thread behind a hook.
#[derive(Debug)]
pub enum Exchange {
    NotSent,
    NoReply,
    Reply(Result<(), String>),
}

/// The result of an operation, with the message as characters.
pub open spec fn outcome(result: Result<(), String>) -> Result<(), Seq<char>> {
    match result {
        Ok(_) => Ok(()),
        Err(message) => Err(message@),
    }
}

/// Whether a default binding is registered when the app starts: the one that cancels
/// is registered only while it is needed, and the one that post-processes only where
/// post-processing is switched on.
pub open spec fn registered_at_start(id: Seq<char>, post_process_enabled: bool) -> bool {
    id != "cancel"@ && (id == "transcribe_with_post_process"@ ==> post_process_enabled)
}

/// The bindings to register when the app starts, each under the id of a default one:
/// the user's where there is one under the same id.
pub open spec fn start_bindings(
    defaults: Seq<(Seq<char>, ShortcutBinding)>,
    user: Seq<(Seq<char>, ShortcutBinding)>,
    post_process_enabled: bool,
) -> Seq<(Seq<char>, ShortcutBinding)> {
    defaults.filter_map(start_binding(user, post_process_enabled))
}

/// The binding to register for a default one, if any, under its id.
pub open spec fn start_binding(
    user: Seq<(Seq<char>, ShortcutBinding)>,
    post_process_enabled: bool,
) -> spec_fn((Seq<char>, ShortcutBinding)) -> Option<(Seq<char>, ShortcutBinding)> {
    |default: (Seq<char>, ShortcutBinding)|
        if registered_at_start(default.0, post_process_enabled) {
            match table::lookup(user, default.0) {
                Some(own) => Some((default.0, own)),
                None => Some(default),
            }
        } else {
            None
        }
}

/// Bindings under their ids, with the ids as characters.
pub open spec fn under_ids(bindings: Seq<(String, ShortcutBinding)>) -> Seq<
    (Seq<char>, ShortcutBinding),
> {
    bindings.map_values(|binding: (String, ShortcutBinding)| (binding.0@, binding.1))
}

/// Lists the bindings to register when the app starts, each under the id of the default
/// one that it stands for.
pub fn init_shortcuts(
    defaults: &StringTable<ShortcutBinding>,
    user: &StringTable<ShortcutBinding>,
    post_process_enabled: bool,
) -> (r: Vec<(String, ShortcutBinding)>)
    ensures
        under_ids(r@) == start_bindings(defaults.entries(), user.entries(), post_process_enabled),
{
    let ghost entries = defaults.entries();
    let ghost choice = start_binding(user.entries(), post_process_enabled);
    let mut r: Vec<(String, ShortcutBinding)> = Vec::new();
    let mut i: usize = 0;
    assert(under_ids(r@) =~= entries.take(0).filter_map(choice));
    while i < defaults.len()
        invariant
            i <= defaults.entries().len(),
            entries == defaults.entries(),
            choice == start_binding(user.entries(), post_process_enabled),
            under_ids(r@) == entries.take(i as int).filter_map(choice),
        decreases defaults.entries().len() - i,
    {
        proof {
            entries.lemma_filter_map_take_succ(choice, i as int);
        }
        let ghost before = r@;
        let id = defaults.key_at(i);
        if !same_str(id, "cancel") && (post_process_enabled || !same_str(
            id,
            "transcribe_with_post_process",
        )) {
            let binding = match user.get(id) {
                Some(own) => own.clone(),
                None => defaults.value_at(i).clone(),
            };
            r.push((id.to_owned(), binding));
            assert(under_ids(r@) =~= under_ids(before) + seq![(id@, binding)]);
        } else {
            assert(under_ids(r@) =~= under_ids(before) + Seq::<
                (Seq<char>, ShortcutBinding),
            >::empty());
        }
        i += 1;
    }
    assert(entries.take(i as int) =~= entries);
    r
}

/// Finds the binding that cancels.
pub fn cancel_binding(bindings: &StringTable<ShortcutBinding>) -> (r: Option<ShortcutBinding>)
    ensures
        r == table::lookup(bindings.entries(), "cancel"@),
{
    match bindings.get("cancel") {
        Some(binding) => Some(binding.clone()),
        None => None,
    }
}

} // verus!
