//! The operations that change something: what they leave behind, and what they hand out.

use crate::actions::flush;
use crate::actions::flush::{
    append_emitted_text, cancel_flush_sessions, start_flush_worker, take_flush_session,
    FlushWorker, WorkerAction, WorkerEvent,
};
use crate::actions::output::ProcessedTranscription;
use crate::actions::pipeline;
use crate::actions::pipeline::{
    HistoryEntry, MainThreadCall, Pipeline, PipelineEvent, Stage, WavSave,
};
use crate::shortcut::interception_hook;
use crate::shortcut::interception_hook::{
    stroke_steps, InterceptionHookState, InterceptionKeyStroke, StrokeStep,
};
use crate::shortcut::lifecycle::{Exchange, Ready};
use crate::shortcut::manager;
use crate::shortcut::manager::{HookManager, ManagerCommand, Polled};
use crate::shortcut::tracker;
use crate::shortcut::tracker::{
    register_binding, RawKeyEvent, RegisteredShortcut, ShortcutTracker,
};
use crate::shortcut::windows_hook;
use crate::shortcut::windows_hook::WindowsHookState;
use crate::table;
use crate::table::StringTable;
use vstd::prelude::*;

verus! {

/// What a key event reports: going down, only shortcuts that are registered, were not
/// active, and have their keys held now, all their modifiers and no others; going up, only
/// registered ones that were active and no longer have their keys held.
pub proof fn lemma_apply_reports(
    followed: &mut ShortcutTracker,
    event: RawKeyEvent,
    bindings: &StringTable<RegisteredShortcut>,
    r: Vec<(RegisteredShortcut, bool)>,
    k: int,
)
    requires
        call_ensures(ShortcutTracker::apply, (followed, event, bindings), r),
        0 <= k < r@.len(),
    ensures
        ({
            let (shortcut, is_pressed) = r@[k];
            &&& is_pressed == event.is_down
            &&& shortcut.parsed.held_by(final(followed)@.held) == event.is_down
            &&& old(followed)@.active.contains(shortcut.binding_id@) ==> !event.is_down
            &&& event.is_down ==> exists|i: int|
                0 <= i < bindings.entries().len() && (#[trigger] bindings.entries()[i]).1
                    == shortcut
        }),
{
    if event.is_down {
        crate::laws::tracking::lemma_only_held_fire(old(followed)@, event, bindings.entries(), k);
    } else {
        crate::laws::tracking::lemma_only_released_end(old(followed)@, event, bindings.entries(), k);
    }
}

/// Following a key event, and forgetting a shortcut, do what is said of their states.
pub proof fn lemma_tracker_operations(
    followed: &mut ShortcutTracker,
    event: RawKeyEvent,
    bindings: &StringTable<RegisteredShortcut>,
    r: Vec<(RegisteredShortcut, bool)>,
    other: &mut ShortcutTracker,
    binding_id: &str,
    idle: ShortcutTracker,
)
    requires
        call_ensures(ShortcutTracker::apply, (followed, event, bindings), r),
        call_ensures(ShortcutTracker::remove_binding, (other, binding_id), ()),
        call_ensures(ShortcutTracker::default, (), idle),
    ensures
        (final(followed)@, r@) == tracker::step(old(followed)@, event, bindings.entries()),
        final(other)@.held == old(other)@.held,
        final(other)@.active == tracker::remaining(old(other)@.active, seq![binding_id@]),
        idle@.active.len() == 0,
        forall|key: u32| !idle@.held.contains(key),
{
}

/// Registering a shortcut puts it under its id as it was given, or refuses it and changes
/// nothing. It is refused only where it cannot be read, or where another id has the very
/// same keys.
pub proof fn lemma_register_binding(
    bindings: &mut StringTable<RegisteredShortcut>,
    binding_id: String,
    hotkey_string: String,
    r: Result<(), String>,
)
    requires
        call_ensures(register_binding, (bindings, binding_id, hotkey_string), r),
    ensures
        ({
            let before = old(bindings).entries();
            let after = final(bindings).entries();
            match windows_hook::parsed(hotkey_string@) {
                Err(message) => r matches Err(said) && said@ == message && after == before,
                Ok(keys) => if exists|i: int|
                    0 <= i < before.len() && (#[trigger] before[i]).1.parsed == keys
                        && before[i].1.binding_id@ != binding_id@ {
                    r is Err && after == before
                } else {
                    &&& r is Ok
                    &&& exists|shortcut: RegisteredShortcut|
                        {
                            &&& shortcut.binding_id@ == binding_id@
                            &&& shortcut.hotkey_string@ == hotkey_string@
                            &&& shortcut.parsed == keys
                            &&& after == #[trigger] table::inserted(before, binding_id@, shortcut)
                        }
                },
            }
        }),
{
    crate::laws::tracking::lemma_refused_where_in_use(
        old(bindings).entries(),
        binding_id@,
        hotkey_string@,
    );
    if r is Ok {
        let shortcut = RegisteredShortcut {
            binding_id,
            hotkey_string,
            parsed: windows_hook::parsed(hotkey_string@)->Ok_0,
        };
        assert(final(bindings).entries() == table::inserted(
            old(bindings).entries(),
            binding_id@,
            shortcut,
        ));
    }
}

/// The thread behind a hook does what is said of its states.
pub proof fn lemma_manager_operations(
    a: &mut HookManager,
    command: ManagerCommand,
    answered: Option<Result<(), String>>,
    b: &mut HookManager,
    polled: Polled,
    replied: Option<Result<(), String>>,
    c: &mut HookManager,
    event: RawKeyEvent,
    reported: Vec<(RegisteredShortcut, bool)>,
    d: &HookManager,
    running: bool,
)
    requires
        call_ensures(HookManager::handle, (a, command), answered),
        call_ensures(HookManager::poll, (b, polled), replied),
        call_ensures(HookManager::key_event, (c, event), reported),
        call_ensures(HookManager::is_running, (d,), running),
    ensures
        ({
            let (after, reply) = manager::after_command(old(a)@, command);
            &&& final(a)@ == after
            &&& match (answered, reply) {
                (Some(Ok(_)), Some(Ok(_))) => true,
                (Some(Err(said)), Some(Err(message))) => said@ == message,
                (None, None) => true,
                _ => false,
            }
        }),
        ({
            let (after, reply) = manager::after_poll(old(b)@, polled);
            &&& final(b)@ == after
            &&& match (replied, reply) {
                (Some(Ok(_)), Some(Ok(_))) => true,
                (Some(Err(said)), Some(Err(message))) => said@ == message,
                (None, None) => true,
                _ => false,
            }
        }),
        (final(c)@, reported@) == manager::after_key(old(c)@, event),
        running == d@.running,
{
}

/// A stroke does what is said of the state of the thread.
pub proof fn lemma_stroke_operation(
    thread: &mut HookManager,
    stroke: InterceptionKeyStroke,
    vk_code: u32,
    r: Vec<StrokeStep>,
)
    requires
        call_ensures(stroke_steps, (thread, stroke, vk_code), r),
    ensures
        (final(thread)@, r@) == interception_hook::after_stroke(old(thread)@, stroke, vk_code),
        r@.len() > 0 && r@[0] == StrokeStep::SendBack(stroke),
{
}

/// A hook takes over a thread that came up where it has none, and hands back any other;
/// shut down, it lets go of its thread.
pub proof fn lemma_windows_hook_operations<R>(
    a: &mut WindowsHookState<R>,
    runtime: R,
    ready: Ready,
    r: (Result<(), String>, Option<R>),
    b: &mut WindowsHookState<R>,
    gone: Option<R>,
    c: &WindowsHookState<R>,
    exchange: Exchange,
    registered: Result<(), String>,
)
    requires
        call_ensures(WindowsHookState::<R>::start, (a, runtime, ready), r),
        call_ensures(WindowsHookState::<R>::shutdown, (b,), gone),
        call_ensures(WindowsHookState::<R>::register, (c, exchange), registered),
    ensures
        old(a).runtime() is Some ==> final(a).runtime() == old(a).runtime() && r.0 is Ok && r.1
            == Some(runtime),
        old(a).runtime() is None && ready is Started ==> final(a).runtime() == Some(runtime)
            && r.0 is Ok && r.1 is None,
        old(a).runtime() is None && !(ready is Started) ==> final(a).runtime() is None && r.0 is Err
            && r.1 == Some(runtime),
        gone == old(b).runtime(),
        final(b).runtime() is None,
        registered is Ok ==> c.runtime() is Some && exchange is Reply,
{
}

/// The same of the hook on the driver.
pub proof fn lemma_interception_hook_operations<R>(
    a: &mut InterceptionHookState<R>,
    runtime: R,
    ready: Ready,
    r: (Result<(), String>, Option<R>),
    b: &mut InterceptionHookState<R>,
    gone: Option<R>,
    c: &InterceptionHookState<R>,
    exchange: Exchange,
    registered: Result<(), String>,
)
    requires
        call_ensures(InterceptionHookState::<R>::start, (a, runtime, ready), r),
        call_ensures(InterceptionHookState::<R>::shutdown, (b,), gone),
        call_ensures(InterceptionHookState::<R>::register, (c, exchange), registered),
    ensures
        old(a).runtime() is Some ==> final(a).runtime() == old(a).runtime() && r.0 is Ok && r.1
            == Some(runtime),
        old(a).runtime() is None && ready is Started ==> final(a).runtime() == Some(runtime)
            && r.0 is Ok && r.1 is None,
        old(a).runtime() is None && !(ready is Started) ==> final(a).runtime() is None && r.0 is Err
            && r.1 == Some(runtime),
        gone == old(b).runtime(),
        final(b).runtime() is None,
        registered is Ok ==> c.runtime() is Some && exchange is Reply,
{
}

/// A table gives back what is under a key, and what it puts in, takes out and empties is
/// what is said of its entries.
pub proof fn lemma_table_operations<V>(
    a: &mut StringTable<V>,
    key: String,
    value: V,
    former: Option<V>,
    b: &mut StringTable<V>,
    name: &str,
    taken: Option<V>,
    c: &mut StringTable<V>,
    all: Vec<V>,
    d: &StringTable<V>,
    found: Option<&V>,
)
    requires
        call_ensures(StringTable::<V>::insert, (a, key, value), former),
        call_ensures(StringTable::<V>::remove, (b, name), taken),
        call_ensures(StringTable::<V>::drain, (c,), all),
        call_ensures(StringTable::<V>::get, (d, name), found),
    ensures
        final(a).entries() == table::inserted(old(a).entries(), key@, value),
        former == table::lookup(old(a).entries(), key@),
        final(b).entries() == table::removed(old(b).entries(), name@),
        taken == table::lookup(old(b).entries(), name@),
        final(c).entries().len() == 0,
        all@ == table::values(old(c).entries()),
        match found {
            Some(value) => table::lookup(d.entries(), name@) == Some(*value),
            None => table::lookup(d.entries(), name@) is None,
        },
{
}

/// A session that starts is noted under its binding, and the one before it is handed back;
/// one that is taken is handed out and no longer noted; and all can be taken at once.
pub proof fn lemma_session_operations<S>(
    a: &mut StringTable<S>,
    binding_id: String,
    session: S,
    superseded: Option<S>,
    b: &mut StringTable<S>,
    id: &str,
    taken: Option<S>,
    c: &mut StringTable<S>,
    all: Vec<S>,
)
    requires
        call_ensures(start_flush_worker::<S>, (a, binding_id, session), superseded),
        call_ensures(take_flush_session::<S>, (b, id), taken),
        call_ensures(cancel_flush_sessions::<S>, (c,), all),
    ensures
        final(a).entries() == table::inserted(old(a).entries(), binding_id@, session),
        superseded == table::lookup(old(a).entries(), binding_id@),
        final(b).entries() == table::removed(old(b).entries(), id@),
        taken == table::lookup(old(b).entries(), id@),
        final(c).entries().len() == 0,
        all@ == table::values(old(c).entries()),
{
}

/// A session takes events into account as is said of its states, and appends text so.
pub proof fn lemma_worker_operations(
    worker: &mut FlushWorker,
    event: WorkerEvent,
    r: Vec<WorkerAction>,
    emitted: &mut String,
    text: &str,
)
    requires
        call_ensures(FlushWorker::on, (worker, event), r),
        call_ensures(append_emitted_text, (emitted, text), ()),
    ensures
        final(worker)@ == flush::worker_after(old(worker)@, event),
        flush::worker_models(r@) == flush::worker_actions(old(worker)@, event),
        final(emitted)@ == flush::appended(old(emitted)@, text@),
{
}

/// A recording takes events into account as is said of its stages, and keeps its name and
/// whether post-processing was asked for.
pub proof fn lemma_advance(
    recording: &mut Pipeline,
    event: PipelineEvent,
    r: Option<HistoryEntry>,
)
    requires
        call_ensures(Pipeline::advance, (recording, event), r),
    ensures
        final(recording).file_name@ == old(recording).file_name@,
        final(recording).post_process == old(recording).post_process,
        (final(recording)@.stage, pipeline::entry_model(r)) == pipeline::advanced(
            old(recording)@,
            event,
        ),
{
    assert(final(recording)@.file_name == old(recording)@.file_name);
    assert(final(recording)@.post_process == old(recording)@.post_process);
}

/// A recording that is processed is inserted unless its text is empty, whatever was asked
/// for; it is handed out for the history, under its name, where its file is saved.
pub proof fn lemma_advance_processed(
    recording: &mut Pipeline,
    saved: bool,
    transcription: String,
    processed: ProcessedTranscription,
    r: Option<HistoryEntry>,
)
    requires
        call_ensures(
            Pipeline::advance,
            (recording, PipelineEvent::Processed { cancelled: false, processed }),
            r,
        ),
        old(recording).stage == (Stage::Processing { saved, transcription }),
    ensures
        processed.final_text@.len() > 0 ==> (final(recording).stage matches Stage::Inserting {
            text,
        } && text@ == processed.final_text@),
        processed.final_text@.len() == 0 ==> (final(recording).stage matches Stage::Done {
            inserted,
        } && inserted is None),
        r is Some <==> saved,
        r matches Some(entry) ==> entry.file_name@ == old(recording).file_name@
            && entry.transcription@ == transcription@ && entry.post_process == old(
            recording,
        ).post_process,
{
    crate::laws::pipeline::lemma_processed(old(recording)@, saved, transcription@, processed);
}

/// A recording that is transcribed is processed; one that failed is done, and handed out
/// for the history without text where its file is saved.
pub proof fn lemma_advance_transcribed(
    recording: &mut Pipeline,
    save: WavSave,
    result: Result<String, String>,
    r: Option<HistoryEntry>,
)
    requires
        call_ensures(
            Pipeline::advance,
            (recording, PipelineEvent::Transcribed { cancelled: false, save, result }),
            r,
        ),
        old(recording).stage is Transcribing,
    ensures
        match result {
            Ok(text) => {
                &&& r is None
                &&& final(recording).stage matches Stage::Processing { saved, transcription }
                &&& transcription@ == text@
                &&& saved <==> (save matches WavSave::Written(verified) && verified is Ok)
            },
            Err(_) => {
                &&& final(recording).stage matches Stage::Done { inserted }
                &&& inserted is None
                &&& r is Some <==> (save matches WavSave::Written(verified) && verified is Ok)
                &&& r matches Some(entry) ==> entry.transcription@.len() == 0 && entry.file_name@
                    == old(recording).file_name@
            },
        },
{
    crate::laws::pipeline::lemma_transcribed(old(recording)@, save, result);
}

/// A text counts as inserted exactly where the call that inserts it succeeded.
pub proof fn lemma_advance_inserted(
    recording: &mut Pipeline,
    text: String,
    call: MainThreadCall,
    r: Option<HistoryEntry>,
)
    requires
        call_ensures(Pipeline::advance, (recording, PipelineEvent::Inserted { call }), r),
        old(recording).stage == (Stage::Inserting { text }),
    ensures
        r is None,
        final(recording).stage matches Stage::Done { inserted } && match inserted {
            Some(kept) => kept@ == text@ && (call matches MainThreadCall::Reply(result)
                && result is Ok),
            None => !(call matches MainThreadCall::Reply(result) && result is Ok),
        },
{
    crate::laws::pipeline::lemma_inserted(old(recording)@, text@, call);
}

} // verus!
