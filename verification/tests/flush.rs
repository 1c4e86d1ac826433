use handy_core::actions::flush::{
    append_emitted_text, cancel_flush_sessions, close_flush_session, finish_flush_session,
    flush_chunk_samples, pad_short_flush_samples, start_flush_worker, take_flush_session,
    FinishAction, FlushWorker, LastChunk, WorkerAction, WorkerEvent, FLUSH_MIN_SAMPLE_COUNT,
};
use handy_core::table::StringTable;

fn chunk_done(worker: &mut FlushWorker, text: Option<&str>) -> Vec<WorkerAction> {
    worker.on(WorkerEvent::ChunkDone {
        text: text.map(|text| text.to_string()),
        queued: 0,
    })
}

fn process(index: u64, context: &str) -> WorkerAction {
    WorkerAction::Process {
        index,
        context: context.to_string(),
    }
}

fn process_last(index: u64, context: &str) -> FinishAction {
    FinishAction::ProcessLast {
        index,
        context: context.to_string(),
    }
}

fn processed(text: Option<&str>) -> LastChunk {
    LastChunk::Processed {
        inserted: text.map(|text| text.to_string()),
    }
}

#[test]
fn sessions_supersede_each_other() {
    let mut sessions = StringTable::new();
    assert_eq!(start_flush_worker(&mut sessions, "a".to_string(), 1), None);
    assert_eq!(start_flush_worker(&mut sessions, "b".to_string(), 2), None);
    assert_eq!(start_flush_worker(&mut sessions, "a".to_string(), 3), Some(1));
    assert_eq!(take_flush_session(&mut sessions, "a"), Some(3));
    assert_eq!(take_flush_session(&mut sessions, "a"), None);
    start_flush_worker(&mut sessions, "c".to_string(), 4);
    assert_eq!(cancel_flush_sessions(&mut sessions), vec![2, 4]);
    assert_eq!(take_flush_session(&mut sessions, "b"), None);
    assert!(cancel_flush_sessions(&mut sessions).is_empty());
}

#[test]
fn short_chunks_are_padded_with_silence() {
    let padded = pad_short_flush_samples(vec![0.5_f32; 100], 0.0);
    assert_eq!(padded.len(), 20_000);
    assert!(padded[..100].iter().all(|sample| *sample == 0.5));
    assert!(padded[100..].iter().all(|sample| *sample == 0.0));
    assert_eq!(pad_short_flush_samples(vec![1_i16; 15_999], 0).len(), 20_000);
    assert_eq!(
        pad_short_flush_samples(vec![1_i16; FLUSH_MIN_SAMPLE_COUNT], 0),
        vec![1_i16; 16_000]
    );
    assert!(pad_short_flush_samples(Vec::<f32>::new(), 0.0).is_empty());
}

#[test]
fn cancelled_and_empty_chunks_are_not_transcribed() {
    assert!(flush_chunk_samples(true, vec![1_i16], 0).is_none());
    assert!(flush_chunk_samples(false, Vec::<i16>::new(), 0).is_none());
    assert_eq!(
        flush_chunk_samples(false, vec![1_i16], 0).map(|samples| samples.len()),
        Some(20_000)
    );
}

#[test]
fn texts_stand_on_lines_of_their_own() {
    let mut emitted = String::new();
    for text in ["", "one", " \n", " two ", "three"] {
        append_emitted_text(&mut emitted, text);
    }
    assert_eq!(emitted, "one\n two \nthree");
}

#[test]
fn workers_show_what_is_pending() {
    let mut worker = FlushWorker::new();
    assert_eq!(
        worker.on(WorkerEvent::Received {
            cancelled: false,
            queued: 2
        }),
        vec![WorkerAction::ShowPending(3), process(0, "")]
    );
    assert_eq!(
        worker.on(WorkerEvent::Tick { queued: 4 }),
        vec![WorkerAction::ShowPending(5)]
    );
    assert_eq!(
        worker.on(WorkerEvent::ChunkDone {
            text: Some("one".to_string()),
            queued: 4
        }),
        vec![WorkerAction::ShowPending(4)]
    );
    assert_eq!(
        worker.on(WorkerEvent::Received {
            cancelled: false,
            queued: 0
        }),
        vec![WorkerAction::ShowPending(1), process(1, "one")]
    );
    assert_eq!(
        worker.on(WorkerEvent::Received {
            cancelled: true,
            queued: 7
        }),
        vec![WorkerAction::ShowPending(0), WorkerAction::Finish]
    );
    assert_eq!(
        worker.on(WorkerEvent::Closed),
        vec![WorkerAction::ShowPending(0), WorkerAction::Finish]
    );
}

#[test]
fn workers_come_to_the_texts_of_their_chunks() {
    let mut worker = FlushWorker::new();
    for text in [None, Some("one"), Some(" "), None, Some("two")] {
        assert_eq!(
            chunk_done(&mut worker, text),
            vec![WorkerAction::ShowPending(0)]
        );
    }
    assert_eq!(worker.emitted_text, "one\ntwo");
    assert!(worker.inserted_any);
    assert_eq!(worker.next_chunk_index, 5);

    let mut blank = FlushWorker::new();
    chunk_done(&mut blank, None);
    assert!(!blank.inserted_any);
    chunk_done(&mut blank, Some(" "));
    assert!(blank.inserted_any);
    assert_eq!(blank.emitted_text, "");
}

#[test]
fn lost_workers_count_as_fresh() {
    let fresh = FlushWorker::or_new(None);
    assert_eq!(fresh.emitted_text, "");
    assert!(!fresh.inserted_any);
    assert_eq!(fresh.next_chunk_index, 0);
    let mut worker = FlushWorker::new();
    chunk_done(&mut worker, Some("one"));
    assert_eq!(FlushWorker::or_new(Some(worker)).emitted_text, "one");
}

#[test]
fn the_last_samples_are_processed() {
    let mut worker = FlushWorker::new();
    chunk_done(&mut worker, Some("one"));
    assert_eq!(
        finish_flush_session(&worker, false, Some(5)),
        vec![FinishAction::ShowPending(1), process_last(1, "one")]
    );
    assert_eq!(
        finish_flush_session(&worker, false, Some(0)),
        vec![process_last(1, "one")]
    );
    assert!(finish_flush_session(&worker, false, None).is_empty());
    assert!(finish_flush_session(&worker, true, Some(5)).is_empty());
}

#[test]
fn sessions_end_idle() {
    let with = |mut actions: Vec<FinishAction>| {
        actions.push(FinishAction::UnloadModel);
        actions.push(FinishAction::HideOverlay);
        actions.push(FinishAction::ShowIdle);
        actions
    };
    let nothing = FlushWorker::new();
    let mut something = FlushWorker::new();
    chunk_done(&mut something, Some("one"));
    let no_last = LastChunk::NotProcessed;
    assert_eq!(close_flush_session(&nothing, &no_last, false, false), with(vec![]));
    assert_eq!(
        close_flush_session(&something, &no_last, false, false),
        with(vec![FinishAction::AutoSubmit])
    );
    assert_eq!(
        close_flush_session(&nothing, &processed(Some("two")), false, false),
        with(vec![FinishAction::ShowPending(0), FinishAction::AutoSubmit])
    );
    assert_eq!(
        close_flush_session(&nothing, &processed(None), false, false),
        with(vec![FinishAction::ShowPending(0)])
    );
    assert_eq!(
        close_flush_session(&something, &processed(Some("two")), true, true),
        with(vec![FinishAction::ShowPending(0), FinishAction::ShowPending(0)])
    );
    assert_eq!(close_flush_session(&something, &no_last, false, true), with(vec![]));
}

#[test]
fn chunks_are_processed_after_the_texts_before_them() {
    let mut worker = FlushWorker::new();
    for text in [Some("one"), None, Some(" \n"), Some("two")] {
        chunk_done(&mut worker, text);
    }
    assert_eq!(
        worker.on(WorkerEvent::Received {
            cancelled: false,
            queued: 0
        }),
        vec![WorkerAction::ShowPending(1), process(4, "one\ntwo")]
    );
    assert_eq!(
        finish_flush_session(&worker, false, Some(1)),
        vec![FinishAction::ShowPending(1), process_last(4, "one\ntwo")]
    );
    assert_eq!(
        finish_flush_session(&FlushWorker::or_new(None), false, Some(1)),
        vec![FinishAction::ShowPending(1), process_last(0, "")]
    );
}
