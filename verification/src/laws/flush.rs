//! Recordings in chunks: samples, sessions and the text they come to.

use crate::actions::flush;
use crate::actions::flush::{
    close_flush_session, finish_flush_session, flush_chunk_samples, pad_short_flush_samples,
    FinishAction, FinishActionModel, FlushWorker, LastChunk, WorkerAction, WorkerActionModel,
    WorkerEvent, WorkerModel,
};
use crate::table;
use crate::text;
use vstd::prelude::*;

verus! {

/// All samples of a chunk are transcribed, at the front and in their order. A chunk of a
/// second or more is transcribed as it is, and so is an empty one; a shorter one is
/// followed by silence up to a second and a quarter.
pub proof fn lemma_samples_kept<T: Copy>(samples: Vec<T>, silence: T, r: Vec<T>)
    requires
        call_ensures(pad_short_flush_samples::<T>, (samples, silence), r),
    ensures
        r@.len() >= samples@.len(),
        forall|i: int| 0 <= i < samples@.len() ==> #[trigger] r@[i] == samples@[i],
        samples@.len() == 0 || samples@.len() >= 16_000 ==> r@ == samples@,
        0 < samples@.len() < 16_000 ==> r@.len() == 20_000 && forall|i: int|
            samples@.len() <= i < r@.len() ==> #[trigger] r@[i] == silence,
{
}

/// A chunk is transcribed unless it is empty or its session was cancelled, and then with
/// all its samples.
pub proof fn lemma_chunk_samples<T: Copy>(
    cancelled: bool,
    samples: Vec<T>,
    silence: T,
    r: Option<Vec<T>>,
)
    requires
        call_ensures(flush_chunk_samples::<T>, (cancelled, samples, silence), r),
    ensures
        r is Some <==> !cancelled && samples@.len() > 0,
        r matches Some(all) ==> {
            &&& all@.len() >= samples@.len()
            &&& forall|i: int| 0 <= i < samples@.len() ==> #[trigger] all@[i] == samples@[i]
            &&& samples@.len() >= 16_000 ==> all@ == samples@
            &&& samples@.len() < 16_000 ==> all@.len() == 20_000 && forall|i: int|
                samples@.len() <= i < all@.len() ==> #[trigger] all@[i] == silence
        },
{
}

/// Text with more than white space in it is appended on a line of its own, and the text
/// before it is kept; other text changes nothing.
pub proof fn lemma_text_appended(emitted: Seq<char>, text: Seq<char>)
    ensures
        ({
            let after = flush::appended(emitted, text);
            if exists|i: int| 0 <= i < text.len() && !text::is_white_space(#[trigger] text[i]) {
                &&& emitted.len() == 0 ==> after == text
                &&& emitted.len() > 0 ==> {
                    &&& after.len() == emitted.len() + 1 + text.len()
                    &&& after.take(emitted.len() as int) == emitted
                    &&& after[emitted.len() as int] == '\n'
                    &&& after.skip(emitted.len() as int + 1) == text
                }
            } else {
                after == emitted
            }
        }),
{
    let after = flush::appended(emitted, text);
    if !text::blank(text) && emitted.len() > 0 {
        assert(after.take(emitted.len() as int) =~= emitted);
        assert(after.skip(emitted.len() as int + 1) =~= text);
    }
}

/// A chunk that is done counts, whether or not a text of it was inserted; one that was is
/// appended. Nothing else changes what a session has come to.
pub proof fn lemma_chunk_counted(worker: WorkerModel, event: WorkerEvent)
    ensures
        ({
            let after = flush::worker_after(worker, event);
            match event {
                WorkerEvent::ChunkDone { text, queued } => {
                    &&& after.next == worker.next + 1
                    &&& after.inserted <==> worker.inserted || text is Some
                    &&& match text {
                        Some(text) => after.emitted == flush::appended(worker.emitted, text@),
                        None => after.emitted == worker.emitted,
                    }
                },
                WorkerEvent::Received { cancelled, queued } => after == worker,
                WorkerEvent::Tick { queued } => after == worker,
                WorkerEvent::Closed => after == worker,
            }
        }),
{
}

/// A chunk that comes is shown as pending with those in the queue, and processed under the
/// next number and after the text so far; a tick shows the same number again; a chunk that
/// is done leaves the queue; and a session that is cancelled or closed shows nothing
/// pending and ends.
pub proof fn lemma_session_acts(worker: WorkerModel, queued: usize, text: Option<String>)
    ensures
        flush::worker_actions(worker, WorkerEvent::Received { cancelled: false, queued }) == seq![
            WorkerActionModel::ShowPending((queued + 1) as nat),
            WorkerActionModel::Process { index: worker.next, context: worker.emitted },
        ],
        flush::worker_actions(worker, WorkerEvent::Received { cancelled: true, queued }) == seq![
            WorkerActionModel::ShowPending(0),
            WorkerActionModel::Finish,
        ],
        flush::worker_actions(worker, WorkerEvent::Tick { queued }) == seq![
            WorkerActionModel::ShowPending((queued + 1) as nat),
        ],
        flush::worker_actions(worker, WorkerEvent::ChunkDone { text, queued }) == seq![
            WorkerActionModel::ShowPending(queued as nat),
        ],
        flush::worker_actions(worker, WorkerEvent::Closed) == seq![
            WorkerActionModel::ShowPending(0),
            WorkerActionModel::Finish,
        ],
{
}

/// What stands for a session, and for what is to be done, holds all that they hold.
pub proof fn lemma_session_stands_for(
    worker: FlushWorker,
    actions: Seq<WorkerAction>,
    finishing: Seq<FinishAction>,
    i: int,
)
    ensures
        worker@.emitted == worker.emitted_text@,
        worker@.inserted == worker.inserted_any,
        worker@.next == worker.next_chunk_index,
        flush::worker_models(actions).len() == actions.len(),
        0 <= i < actions.len() ==> match actions[i] {
            WorkerAction::ShowPending(count) => flush::worker_models(actions)[i]
                == WorkerActionModel::ShowPending(count as nat),
            WorkerAction::Process { index, context } => flush::worker_models(actions)[i]
                == WorkerActionModel::Process { index: index as nat, context: context@ },
            WorkerAction::Finish => flush::worker_models(actions)[i] == WorkerActionModel::Finish,
        },
        flush::finish_models(finishing).len() == finishing.len(),
        0 <= i < finishing.len() ==> match finishing[i] {
            FinishAction::ShowPending(count) => flush::finish_models(finishing)[i]
                == FinishActionModel::ShowPending(count as nat),
            FinishAction::ProcessLast { index, context } => flush::finish_models(finishing)[i]
                == FinishActionModel::ProcessLast { index: index as nat, context: context@ },
            FinishAction::AutoSubmit => flush::finish_models(finishing)[i]
                == FinishActionModel::AutoSubmit,
            FinishAction::UnloadModel => flush::finish_models(finishing)[i]
                == FinishActionModel::UnloadModel,
            FinishAction::HideOverlay => flush::finish_models(finishing)[i]
                == FinishActionModel::HideOverlay,
            FinishAction::ShowIdle => flush::finish_models(finishing)[i]
                == FinishActionModel::ShowIdle,
        },
{
}

/// A session starts with nothing, and one that was lost counts as having come to nothing.
pub proof fn lemma_session_starts(given: Option<FlushWorker>, r: FlushWorker, lost: FlushWorker)
    requires
        call_ensures(FlushWorker::new, (), r),
        call_ensures(FlushWorker::or_new, (given,), lost),
    ensures
        r.emitted_text@.len() == 0,
        !r.inserted_any,
        r.next_chunk_index == 0,
        match given {
            Some(worker) => {
                &&& lost.emitted_text@ == worker.emitted_text@
                &&& lost.inserted_any == worker.inserted_any
                &&& lost.next_chunk_index == worker.next_chunk_index
            },
            None => {
                &&& lost.emitted_text@.len() == 0
                &&& !lost.inserted_any
                &&& lost.next_chunk_index == 0
            },
        },
{
    lemma_session_stands_for(r, Seq::empty(), Seq::empty(), 0);
    lemma_session_stands_for(lost, Seq::empty(), Seq::empty(), 0);
}

/// What is recorded last is shown as pending where there are samples, and processed, under
/// the number and after the text of the session; where nothing was recorded, or the session
/// is cancelled, nothing is done.
pub proof fn lemma_last_chunk(
    worker: &FlushWorker,
    cancelled: bool,
    samples: Option<usize>,
    r: Vec<FinishAction>,
)
    requires
        call_ensures(finish_flush_session, (worker, cancelled, samples), r),
    ensures
        match samples {
            None => r@.len() == 0,
            Some(count) => if cancelled {
                r@.len() == 0
            } else {
                &&& r@.len() == (if count > 0 {
                    2int
                } else {
                    1int
                })
                &&& count > 0 ==> r@[0] == FinishAction::ShowPending(1)
                &&& r@[r@.len() - 1] matches FinishAction::ProcessLast { index, context }
                &&& index == worker.next_chunk_index
                &&& context@ == worker.emitted_text@
            },
        },
{
    let models = flush::finish_models(r@);
    assert(models.len() == r@.len());
    if r@.len() > 0 {
        assert(models[0] == r@[0]@);
        assert(models[r@.len() - 1] == r@[r@.len() - 1]@);
    }
}

/// How a session is closed: what was processed last is no longer pending; a cancelled
/// session has nothing pending; what was inserted, in the session or last, is submitted,
/// unless the session was cancelled by then; and at the end the model may be unloaded, the
/// overlay is hidden, and the app is idle.
pub proof fn lemma_closed(
    worker: &FlushWorker,
    last: &LastChunk,
    cancelled: bool,
    cancelled_by_then: bool,
    r: Vec<FinishAction>,
)
    requires
        call_ensures(close_flush_session, (worker, last, cancelled, cancelled_by_then), r),
    ensures
        ({
            let processed = last is Processed;
            let inserted = worker.inserted_any || (last matches LastChunk::Processed { inserted }
                && inserted is Some);
            let submit = inserted && !cancelled_by_then;
            let pending = (if processed {
                1int
            } else {
                0int
            }) + (if cancelled {
                1int
            } else {
                0int
            });
            let n = r@.len();
            &&& n == pending + (if submit {
                1int
            } else {
                0int
            }) + 3
            &&& forall|i: int| 0 <= i < pending ==> #[trigger] r@[i] == FinishAction::ShowPending(0)
            &&& submit ==> r@[pending] is AutoSubmit
            &&& r@[n - 3] is UnloadModel
            &&& r@[n - 2] is HideOverlay
            &&& r@[n - 1] is ShowIdle
        }),
{
    let models = flush::finish_models(r@);
    assert(models.len() == r@.len());
    assert forall|i: int| 0 <= i < r@.len() implies #[trigger] models[i] == r@[i]@ by {}
    let n = r@.len();
    assert(models[n - 1] == r@[n - 1]@);
    assert(models[n - 2] == r@[n - 2]@);
    assert(models[n - 3] == r@[n - 3]@);
    let expected = flush::closing_actions(worker@, *last, cancelled, cancelled_by_then);
    assert(models == expected);
    let pending = (if *last is Processed {
        1int
    } else {
        0int
    }) + (if cancelled {
        1int
    } else {
        0int
    });
    assert forall|i: int| 0 <= i < pending implies #[trigger] r@[i] == FinishAction::ShowPending(
        0,
    ) by {
        assert(expected[i] == FinishActionModel::ShowPending(0));
        assert(models[i] == r@[i]@);
    }
    if n > pending + 3 {
        assert(expected[pending] == FinishActionModel::AutoSubmit);
        assert(models[pending] == r@[pending]@);
    }
}

} // verus!
