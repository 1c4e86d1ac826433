//! Recordings that are transcribed and inserted chunk by chunk, while they go on.

use super::post_process;
use crate::table;
use crate::table::StringTable;
use crate::text;
use crate::text::is_blank;
use vstd::prelude::*;

verus! {

/// Notes the session of a recording that starts, and hands back the one of the same
/// binding that it supersedes, to be cancelled.
pub fn start_flush_worker<S>(
    sessions: &mut StringTable<S>,
    binding_id: String,
    session: S,
) -> (r: Option<S>)
    requires
        old(sessions).wf(),
    ensures
        final(sessions).wf(),
        final(sessions).entries() == table::inserted(old(sessions).entries(), binding_id@, session),
        r == table::lookup(old(sessions).entries(), binding_id@),
{
    sessions.insert(binding_id, session)
}

/// Takes the session of a binding, if it has one.
pub fn take_flush_session<S>(sessions: &mut StringTable<S>, binding_id: &str) -> (r: Option<S>)
    requires
        old(sessions).wf(),
    ensures
        final(sessions).wf(),
        final(sessions).entries() == table::removed(old(sessions).entries(), binding_id@),
        r == table::lookup(old(sessions).entries(), binding_id@),
{
    sessions.remove(binding_id)
}

/// Takes all sessions, to be cancelled.
pub fn cancel_flush_sessions<S>(sessions: &mut StringTable<S>) -> (r: Vec<S>)
    ensures
        final(sessions).wf(),
        final(sessions).entries() == Seq::<(Seq<char>, S)>::empty(),
        r@ == table::values(old(sessions).entries()),
{
    sessions.drain()
}

/// A session that started is the one to be taken; once taken, or once all are
/// cancelled, there is none.
pub proof fn lemma_session_taken_once<S>(
    sessions: Seq<(Seq<char>, S)>,
    binding_id: Seq<char>,
    session: S,
)
    requires
        table::distinct_keys(sessions),
    ensures
        ({
            let started = table::inserted(sessions, binding_id, session);
            &&& table::lookup(started, binding_id) == Some(session)
            &&& table::lookup(table::removed(started, binding_id), binding_id) is None
            &&& table::lookup(Seq::<(Seq<char>, S)>::empty(), binding_id) is None
        }),
{
    table::lemma_lookup_inserted(sessions, binding_id, session, binding_id);
    table::lemma_lookup_removed(
        table::inserted(sessions, binding_id, session),
        binding_id,
        binding_id,
    );
}

/// The number of samples under which a chunk is padded.
pub const FLUSH_MIN_SAMPLE_COUNT: usize = 16_000;

/// The samples of a chunk, followed by silence up to a quarter over the minimum where
/// there are some but fewer than that minimum.
pub open spec fn padded<T>(samples: Seq<T>, silence: T) -> Seq<T> {
    if 0 < samples.len() < FLUSH_MIN_SAMPLE_COUNT {
        samples + Seq::new(
            (FLUSH_MIN_SAMPLE_COUNT * 5 / 4 - samples.len()) as nat,
            |i: int| silence,
        )
    } else {
        samples
    }
}

/// Pads a short chunk with silence.
pub fn pad_short_flush_samples<T: Copy>(samples: Vec<T>, silence: T) -> (r: Vec<T>)
    ensures
        r@ == padded(samples@, silence),
{
    let ghost given = samples@;
    let mut samples = samples;
    if samples.len() < FLUSH_MIN_SAMPLE_COUNT && samples.len() > 0 {
        while samples.len() < FLUSH_MIN_SAMPLE_COUNT * 5 / 4
            invariant
                0 < given.len() < FLUSH_MIN_SAMPLE_COUNT,
                given.len() <= samples.len() <= FLUSH_MIN_SAMPLE_COUNT * 5 / 4,
                samples@ == given + Seq::new(
                    (samples.len() - given.len()) as nat,
                    |i: int| silence,
                ),
            decreases FLUSH_MIN_SAMPLE_COUNT * 5 / 4 - samples.len(),
        {
            samples.push(silence);
            assert(samples@ =~= given + Seq::new(
                (samples.len() - given.len()) as nat,
                |i: int| silence,
            ));
        }
    } else {
        assert(samples@ =~= padded(given, silence));
    }
    samples
}

/// The samples of a chunk to transcribe, if any: none of a session that was cancelled,
/// nor of an empty chunk.
pub fn flush_chunk_samples<T: Copy>(cancelled: bool, samples: Vec<T>, silence: T) -> (r: Option<
    Vec<T>,
>)
    ensures
        match r {
            Some(padded_samples) => !cancelled && samples@.len() > 0 && padded_samples@ == padded(
                samples@,
                silence,
            ),
            None => cancelled || samples@.len() == 0,
        },
{
    if cancelled {
        return None;
    }
    let samples = pad_short_flush_samples(samples, silence);
    if samples.len() == 0 {
        return None;
    }
    Some(samples)
}

/// The text inserted so far with a chunk's text on a line of its own behind it.
pub open spec fn appended(emitted: Seq<char>, text: Seq<char>) -> Seq<char> {
    if text::blank(text) {
        emitted
    } else if emitted.len() == 0 {
        text
    } else {
        emitted + seq!['\n'] + text
    }
}

/// Appends the text of a chunk, unless it is nothing but white space.
pub fn append_emitted_text(emitted_text: &mut String, text: &str)
    ensures
        final(emitted_text)@ == appended(old(emitted_text)@, text@),
{
    if is_blank(text) {
        return;
    }
    if !emitted_text.as_str().is_empty() {
        emitted_text.push('\n');
    }
    emitted_text.append(text);
    assert(emitted_text@ =~= appended(old(emitted_text)@, text@));
}

/// What a session has come to: the text inserted so far, whether anything was
/// inserted, and the number of the next chunk.
pub struct WorkerModel {
    pub emitted: Seq<char>,
    pub inserted: bool,
    pub next: nat,
}

/// What happens in a session.
#[derive(Debug)]
pub enum WorkerEvent {
    Received { cancelled: bool, queued: usize },
    Tick { queued: usize },
    ChunkDone { text: Option<String>, queued: usize },
    Closed,
}

/// What is to be done about it.
pub enum WorkerActionModel {
    ShowPending(nat),
    Process { index: nat, context: Seq<char> },
    Finish,
}

/// What is to be done about it: show how many chunks are pending, process the chunk
/// that came under its number and after the text inserted so far, or end.
#[derive(Debug, PartialEq, Eq)]
pub enum WorkerAction {
    ShowPending(usize),
    Process { index: u64, context: String },
    Finish,
}

impl View for WorkerAction {
    type V = WorkerActionModel;

    open spec fn view(&self) -> WorkerActionModel {
        match *self {
            WorkerAction::ShowPending(count) => WorkerActionModel::ShowPending(count as nat),
            WorkerAction::Process { index, context } => WorkerActionModel::Process {
                index: index as nat,
                context: context@,
            },
            WorkerAction::Finish => WorkerActionModel::Finish,
        }
    }
}

/// The models of some actions.
pub open spec fn worker_models(actions: Seq<WorkerAction>) -> Seq<WorkerActionModel> {
    actions.map_values(|action: WorkerAction| action@)
}

/// A session after a chunk, of which a text was inserted or not.
pub open spec fn after_chunk(worker: WorkerModel, text: Option<Seq<char>>) -> WorkerModel {
    WorkerModel {
        emitted: match text {
            Some(text) => appended(worker.emitted, text),
            None => worker.emitted,
        },
        inserted: worker.inserted || text is Some,
        next: worker.next + 1,
    }
}

/// A session after an event.
pub open spec fn worker_after(worker: WorkerModel, event: WorkerEvent) -> WorkerModel {
    match event {
        WorkerEvent::ChunkDone { text, queued } => after_chunk(
            worker,
            post_process::owned_chars(text),
        ),
        _ => worker,
    }
}

/// What is to be done about an event: a chunk that came is processed under the next
/// number and after the text inserted so far; while it is, it counts among the pending
/// ones; and a session that was cancelled or has no more chunks ends.
pub open spec fn worker_actions(worker: WorkerModel, event: WorkerEvent) -> Seq<
    WorkerActionModel,
> {
    match event {
        WorkerEvent::Received { cancelled, queued } => if cancelled {
            seq![WorkerActionModel::ShowPending(0), WorkerActionModel::Finish]
        } else {
            seq![
                WorkerActionModel::ShowPending(queued as nat + 1),
                WorkerActionModel::Process { index: worker.next, context: worker.emitted },
            ]
        },
        WorkerEvent::Tick { queued } => seq![WorkerActionModel::ShowPending(queued as nat + 1)],
        WorkerEvent::ChunkDone { text, queued } => seq![
            WorkerActionModel::ShowPending(queued as nat),
        ],
        WorkerEvent::Closed => seq![WorkerActionModel::ShowPending(0), WorkerActionModel::Finish],
    }
}

/// Whether the numbers that an event leads to can be held.
pub open spec fn countable(worker: WorkerModel, event: WorkerEvent) -> bool {
    match event {
        WorkerEvent::Received { cancelled, queued } => queued < usize::MAX,
        WorkerEvent::Tick { queued } => queued < usize::MAX,
        WorkerEvent::ChunkDone { text, queued } => worker.next < u64::MAX,
        WorkerEvent::Closed => true,
    }
}

/// A session.
#[derive(Debug)]
pub struct FlushWorker {
    pub emitted_text: String,
    pub inserted_any: bool,
    pub next_chunk_index: u64,
}

impl View for FlushWorker {
    type V = WorkerModel;

    open spec fn view(&self) -> WorkerModel {
        WorkerModel {
            emitted: self.emitted_text@,
            inserted: self.inserted_any,
            next: self.next_chunk_index as nat,
        }
    }
}

/// A session in which nothing has happened.
pub open spec fn fresh_worker() -> WorkerModel {
    WorkerModel { emitted: Seq::empty(), inserted: false, next: 0 }
}

/// What a session has come to, or a fresh one where it was lost.
pub open spec fn or_fresh(result: Option<FlushWorker>) -> WorkerModel {
    match result {
        Some(worker) => worker@,
        None => fresh_worker(),
    }
}

impl FlushWorker {
    /// A session in which nothing has happened.
    pub fn new() -> (r: Self)
        ensures
            r@ == fresh_worker(),
    {
        FlushWorker { emitted_text: String::new(), inserted_any: false, next_chunk_index: 0 }
    }

    /// What a session has come to, or a fresh one where it was lost.
    pub fn or_new(result: Option<FlushWorker>) -> (r: Self)
        ensures
            r@ == or_fresh(result),
    {
        match result {
            Some(worker) => worker,
            None => FlushWorker::new(),
        }
    }

    /// Takes an event into account, and says what is to be done about it, in order.
    pub fn on(&mut self, event: WorkerEvent) -> (r: Vec<WorkerAction>)
        requires
            countable(old(self)@, event),
        ensures
            final(self)@ == worker_after(old(self)@, event),
            worker_models(r@) == worker_actions(old(self)@, event),
    {
        let mut r: Vec<WorkerAction> = Vec::new();
        match event {
            WorkerEvent::Received { cancelled, queued } => {
                if cancelled {
                    r.push(WorkerAction::ShowPending(0));
                    r.push(WorkerAction::Finish);
                } else {
                    r.push(WorkerAction::ShowPending(queued + 1));
                    r.push(
                        WorkerAction::Process {
                            index: self.next_chunk_index,
                            context: self.emitted_text.clone(),
                        },
                    );
                }
            },
            WorkerEvent::Tick { queued } => {
                r.push(WorkerAction::ShowPending(queued + 1));
            },
            WorkerEvent::ChunkDone { text, queued } => {
                r.push(WorkerAction::ShowPending(queued));
                if let Some(text) = text {
                    append_emitted_text(&mut self.emitted_text, text.as_str());
                    self.inserted_any = true;
                }
                self.next_chunk_index += 1;
            },
            WorkerEvent::Closed => {
                r.push(WorkerAction::ShowPending(0));
                r.push(WorkerAction::Finish);
            },
        }
        assert(worker_models(r@) =~= worker_actions(old(self)@, event));
        r
    }
}

/// Lines put together with a line break between each two.
pub open spec fn join_lines(lines: Seq<Seq<char>>) -> Seq<char>
    decreases lines.len(),
{
    if lines.len() == 0 {
        Seq::empty()
    } else if lines.len() == 1 {
        lines[0]
    } else {
        join_lines(lines.drop_last()) + seq!['\n'] + lines.last()
    }
}

/// The text of a chunk, if one was inserted that is more than white space.
pub open spec fn inserted_line() -> spec_fn(Option<Seq<char>>) -> Option<Seq<char>> {
    |text: Option<Seq<char>>|
        match text {
            Some(line) => if text::blank(line) {
                None
            } else {
                Some(line)
            },
            None => None,
        }
}

/// A session after some chunks, of each of which a text was inserted or not.
pub open spec fn after_chunks(texts: Seq<Option<Seq<char>>>) -> WorkerModel
    decreases texts.len(),
{
    if texts.len() == 0 {
        fresh_worker()
    } else {
        after_chunk(after_chunks(texts.drop_last()), texts.last())
    }
}

/// What a session has come to after some chunks: their texts on a line each, but for
/// those that were not inserted or are nothing but white space; whether any was
/// inserted; and their number as that of the next.
pub proof fn lemma_session_text(texts: Seq<Option<Seq<char>>>)
    ensures
        ({
            let worker = after_chunks(texts);
            &&& worker.emitted == join_lines(texts.filter_map(inserted_line()))
            &&& worker.emitted.len() == 0 <==> texts.filter_map(inserted_line()).len() == 0
            &&& worker.inserted <==> exists|i: int| 0 <= i < texts.len() && #[trigger] texts[i] is Some
            &&& worker.next == texts.len()
        }),
    decreases texts.len(),
{
    if texts.len() > 0 {
        let before = texts.drop_last();
        lemma_session_text(before);
        let lines = before.filter_map(inserted_line());
        match inserted_line()(texts.last()) {
            Some(line) => {
                assert(texts.filter_map(inserted_line()) =~= lines.push(line));
                assert(lines.push(line).drop_last() =~= lines);
                assert(line.len() > 0);
                if lines.len() == 0 {
                    assert(join_lines(lines.push(line)) == line);
                }
            },
            None => {
                assert(texts.filter_map(inserted_line()) =~= lines);
            },
        }
        if exists|i: int| 0 <= i < before.len() && #[trigger] before[i] is Some {
            let i = choose|i: int| 0 <= i < before.len() && #[trigger] before[i] is Some;
            assert(texts[i] is Some);
        }
        if exists|i: int| 0 <= i < texts.len() && #[trigger] texts[i] is Some {
            let i = choose|i: int| 0 <= i < texts.len() && #[trigger] texts[i] is Some;
            if i < before.len() {
                assert(before[i] is Some);
            }
        }
    }
}

/// The texts of the chunks that are done among some events, in order.
pub open spec fn chunk_texts(events: Seq<WorkerEvent>) -> Seq<Option<Seq<char>>>
    decreases events.len(),
{
    if events.len() == 0 {
        Seq::empty()
    } else {
        let before = chunk_texts(events.drop_last());
        match events.last() {
            WorkerEvent::ChunkDone { text, queued } => before.push(post_process::owned_chars(text)),
            _ => before,
        }
    }
}

/// A session after some events.
pub open spec fn after_worker_events(events: Seq<WorkerEvent>) -> WorkerModel
    decreases events.len(),
{
    if events.len() == 0 {
        fresh_worker()
    } else {
        worker_after(after_worker_events(events.drop_last()), events.last())
    }
}

proof fn lemma_events_chunks(events: Seq<WorkerEvent>)
    ensures
        after_worker_events(events) == after_chunks(chunk_texts(events)),
    decreases events.len(),
{
    if events.len() > 0 {
        let before = chunk_texts(events.drop_last());
        lemma_events_chunks(events.drop_last());
        if let WorkerEvent::ChunkDone { text, queued } = events.last() {
            assert(before.push(post_process::owned_chars(text)).drop_last() =~= before);
        }
    }
}

/// Whatever happened in a session, the next chunk is processed, and so is what is
/// recorded last, under the number of the chunks done before it, and after their
/// texts on a line each, but for those that were not inserted or are nothing but white
/// space.
pub proof fn lemma_chunk_context(events: Seq<WorkerEvent>, queued: usize, samples: usize)
    ensures
        ({
            let texts = chunk_texts(events);
            let worker = after_worker_events(events);
            let context = join_lines(texts.filter_map(inserted_line()));
            &&& worker_actions(
                worker,
                WorkerEvent::Received { cancelled: false, queued },
            ).last() == WorkerActionModel::Process { index: texts.len(), context }
            &&& last_actions(worker, false, Some(samples)).last()
                == FinishActionModel::ProcessLast { index: texts.len(), context }
        }),
{
    lemma_events_chunks(events);
    lemma_session_text(chunk_texts(events));
}

/// What is to be done at the end of a session, in order.
pub enum FinishActionModel {
    ShowPending(nat),
    ProcessLast { index: nat, context: Seq<char> },
    AutoSubmit,
    UnloadModel,
    HideOverlay,
    ShowIdle,
}

/// What is to be done at the end of a session, in order: among other things, process
/// what was recorded last, under its number and after the text inserted so far.
#[derive(Debug, PartialEq, Eq)]
pub enum FinishAction {
    ShowPending(usize),
    ProcessLast { index: u64, context: String },
    AutoSubmit,
    UnloadModel,
    HideOverlay,
    ShowIdle,
}

impl View for FinishAction {
    type V = FinishActionModel;

    open spec fn view(&self) -> FinishActionModel {
        match *self {
            FinishAction::ShowPending(count) => FinishActionModel::ShowPending(count as nat),
            FinishAction::ProcessLast { index, context } => FinishActionModel::ProcessLast {
                index: index as nat,
                context: context@,
            },
            FinishAction::AutoSubmit => FinishActionModel::AutoSubmit,
            FinishAction::UnloadModel => FinishActionModel::UnloadModel,
            FinishAction::HideOverlay => FinishActionModel::HideOverlay,
            FinishAction::ShowIdle => FinishActionModel::ShowIdle,
        }
    }
}

/// The models of some actions.
pub open spec fn finish_models(actions: Seq<FinishAction>) -> Seq<FinishActionModel> {
    actions.map_values(|action: FinishAction| action@)
}

/// What is to be done with what was recorded last: it is processed, under the number of
/// the next chunk and after the text that the session inserted, unless the session was
/// cancelled or nothing was recorded.
pub open spec fn last_actions(worker: WorkerModel, cancelled: bool, samples: Option<usize>) -> Seq<
    FinishActionModel,
> {
    let process = FinishActionModel::ProcessLast { index: worker.next, context: worker.emitted };
    if cancelled || samples is None {
        Seq::empty()
    } else if samples == Some(0usize) {
        seq![process]
    } else {
        seq![FinishActionModel::ShowPending(1), process]
    }
}

/// Decides what is to be done with what was recorded last, from the number of samples.
pub fn finish_flush_session(worker: &FlushWorker, cancelled: bool, samples: Option<usize>) -> (r:
    Vec<FinishAction>)
    ensures
        finish_models(r@) == last_actions(worker@, cancelled, samples),
{
    let mut r: Vec<FinishAction> = Vec::new();
    if !cancelled {
        if let Some(count) = samples {
            if count != 0 {
                r.push(FinishAction::ShowPending(1));
            }
            r.push(
                FinishAction::ProcessLast {
                    index: worker.next_chunk_index,
                    context: worker.emitted_text.clone(),
                },
            );
        }
    }
    assert(finish_models(r@) =~= last_actions(worker@, cancelled, samples));
    r
}

/// What is recorded last is processed exactly where there is such a recording and the
/// session is not cancelled, and then with the number of the next chunk and the text of
/// the session, which is that of a fresh one where the session was lost.
pub proof fn lemma_last_processed(
    result: Option<FlushWorker>,
    cancelled: bool,
    samples: Option<usize>,
    action: FinishActionModel,
)
    ensures
        ({
            let worker = or_fresh(result);
            let actions = last_actions(worker, cancelled, samples);
            action is ProcessLast ==> (actions.contains(action) <==> samples is Some && !cancelled
                && action == FinishActionModel::ProcessLast {
                index: worker.next,
                context: worker.emitted,
            })
        }),
{
    let worker = or_fresh(result);
    let actions = last_actions(worker, cancelled, samples);
    if samples is Some && !cancelled {
        assert(actions[actions.len() - 1] == FinishActionModel::ProcessLast {
            index: worker.next,
            context: worker.emitted,
        });
    }
}

/// What became of what was recorded last: it was not processed, or it was, and a text
/// of it was inserted or not.
#[derive(Debug)]
pub enum LastChunk {
    NotProcessed,
    Processed { inserted: Option<String> },
}

/// Whether anything was inserted in a session, what was recorded last included.
pub open spec fn anything_inserted(worker: WorkerModel, last: LastChunk) -> bool {
    worker.inserted || (last matches LastChunk::Processed { inserted } && inserted is Some)
}

/// What is to be done once all is processed. What was inserted is submitted, unless the
/// session was cancelled by then.
pub open spec fn closing_actions(
    worker: WorkerModel,
    last: LastChunk,
    cancelled: bool,
    cancelled_by_then: bool,
) -> Seq<FinishActionModel> {
    (if last is Processed {
        seq![FinishActionModel::ShowPending(0)]
    } else {
        Seq::empty()
    }) + (if cancelled {
        seq![FinishActionModel::ShowPending(0)]
    } else {
        Seq::empty()
    }) + (if anything_inserted(worker, last) && !cancelled_by_then {
        seq![FinishActionModel::AutoSubmit]
    } else {
        Seq::empty()
    }) + seq![
        FinishActionModel::UnloadModel,
        FinishActionModel::HideOverlay,
        FinishActionModel::ShowIdle,
    ]
}

/// Decides what is to be done once all is processed.
pub fn close_flush_session(
    worker: &FlushWorker,
    last: &LastChunk,
    cancelled: bool,
    cancelled_by_then: bool,
) -> (r: Vec<FinishAction>)
    ensures
        finish_models(r@) == closing_actions(worker@, *last, cancelled, cancelled_by_then),
{
    let mut r: Vec<FinishAction> = Vec::new();
    let mut inserted_any = worker.inserted_any;
    if let LastChunk::Processed { inserted } = last {
        r.push(FinishAction::ShowPending(0));
        if inserted.is_some() {
            inserted_any = true;
        }
    }
    if cancelled {
        r.push(FinishAction::ShowPending(0));
    }
    if inserted_any && !cancelled_by_then {
        r.push(FinishAction::AutoSubmit);
    }
    r.push(FinishAction::UnloadModel);
    r.push(FinishAction::HideOverlay);
    r.push(FinishAction::ShowIdle);
    assert(finish_models(r@) =~= closing_actions(worker@, *last, cancelled, cancelled_by_then));
    r
}

/// Whether an action is to submit.
pub open spec fn submits() -> spec_fn(FinishActionModel) -> bool {
    |action: FinishActionModel| action is AutoSubmit
}

/// A session submits once where anything was inserted and it is not cancelled by then,
/// and else not at all. Whatever happened, it ends with the model unloaded, the overlay
/// hidden, and the app idle.
pub proof fn lemma_closing(
    worker: WorkerModel,
    last: LastChunk,
    cancelled: bool,
    cancelled_by_then: bool,
)
    ensures
        ({
            let actions = closing_actions(worker, last, cancelled, cancelled_by_then);
            &&& actions.filter(submits()).len() == (if anything_inserted(worker, last)
                && !cancelled_by_then {
                1nat
            } else {
                0nat
            })
            &&& actions.len() >= 3
            &&& actions.skip(actions.len() - 3) == seq![
                FinishActionModel::UnloadModel,
                FinishActionModel::HideOverlay,
                FinishActionModel::ShowIdle,
            ]
        }),
{
    let actions = closing_actions(worker, last, cancelled, cancelled_by_then);
    let zero = seq![FinishActionModel::ShowPending(0)];
    let submit = seq![FinishActionModel::AutoSubmit];
    let end = seq![
        FinishActionModel::UnloadModel,
        FinishActionModel::HideOverlay,
        FinishActionModel::ShowIdle,
    ];
    let none = Seq::<FinishActionModel>::empty();
    let a = if last is Processed {
        zero
    } else {
        none
    };
    let b = if cancelled {
        zero
    } else {
        none
    };
    let c = if anything_inserted(worker, last) && !cancelled_by_then {
        submit
    } else {
        none
    };
    assert(actions == a + b + c + end);
    Seq::filter_distributes_over_add(a + b + c, end, submits());
    Seq::filter_distributes_over_add(a + b, c, submits());
    Seq::filter_distributes_over_add(a, b, submits());
    reveal_with_fuel(Seq::filter, 4);
    assert(zero.drop_last() =~= none);
    assert(submit.drop_last() =~= none);
    assert(end.drop_last().drop_last().drop_last() =~= none);
    assert(zero.filter(submits()).len() == 0);
    assert(submit.filter(submits()).len() == 1);
    assert(end.filter(submits()).len() == 0);
    assert(actions.skip(actions.len() - 3) =~= end);
}

} // verus!
