use handy_core::actions::output::ProcessedTranscription;
use handy_core::actions::pipeline::{
    paste_outcome, wav_saved, HistoryEntry, MainThreadCall, PasteOutcome, Pipeline, PipelineEvent,
    Stage, WavSave,
};
use handy_core::actions::recording::{
    flush_file_name, new_flush_file_name, new_recording_file_name, recording_file_name,
};

fn transcribed(cancelled: bool, saved: bool, result: Result<&str, &str>) -> PipelineEvent {
    PipelineEvent::Transcribed {
        cancelled,
        save: if saved {
            WavSave::Written(Ok(()))
        } else {
            WavSave::NotWritten("full".to_string())
        },
        result: match result {
            Ok(text) => Ok(text.to_string()),
            Err(error) => Err(error.to_string()),
        },
    }
}

fn processed(cancelled: bool, final_text: &str) -> PipelineEvent {
    PipelineEvent::Processed {
        cancelled,
        processed: ProcessedTranscription {
            final_text: final_text.to_string(),
            post_processed_text: Some(final_text.to_string()),
            post_process_prompt: Some("prompt".to_string()),
        },
    }
}

fn inserted(result: Result<(), String>) -> PipelineEvent {
    PipelineEvent::Inserted {
        call: MainThreadCall::Reply(result),
    }
}

fn pipeline() -> Pipeline {
    Pipeline::new("a.wav".to_string(), true)
}

fn is_done_without_text(pipeline: &Pipeline) -> bool {
    matches!(pipeline.stage, Stage::Done { inserted: None })
}

fn check_entry(entry: Option<HistoryEntry>, transcription: &str, text: Option<&str>) {
    let entry = entry.unwrap();
    assert_eq!(entry.file_name, "a.wav");
    assert_eq!(entry.transcription, transcription);
    assert!(entry.post_process);
    assert_eq!(entry.post_processed_text.as_deref(), text);
    assert_eq!(
        entry.post_process_prompt.as_deref(),
        text.map(|_| "prompt")
    );
}

#[test]
fn names_files_by_time() {
    assert_eq!(flush_file_name(1700000000123, 7), "handy-1700000000123-flush-7.wav");
    assert_eq!(flush_file_name(-5, 0), "handy--5-flush-0.wav");
    assert_eq!(recording_file_name(1700000000), "handy-1700000000.wav");
    assert_ne!(flush_file_name(1, 10), flush_file_name(11, 0));
    assert_ne!(recording_file_name(1), flush_file_name(1, 0));
    assert_ne!(recording_file_name(1), recording_file_name(11));
}

#[test]
fn new_files_are_named_by_the_clock() {
    let before = chrono::Utc::now();
    let flush = new_flush_file_name(3);
    let recording = new_recording_file_name();
    let after = chrono::Utc::now();

    let millis: i64 = flush
        .strip_prefix("handy-")
        .and_then(|rest| rest.strip_suffix("-flush-3.wav"))
        .unwrap()
        .parse()
        .unwrap();
    assert!(before.timestamp_millis() <= millis && millis <= after.timestamp_millis());
    let seconds: i64 = recording
        .strip_prefix("handy-")
        .and_then(|rest| rest.strip_suffix(".wav"))
        .unwrap()
        .parse()
        .unwrap();
    assert!(before.timestamp() <= seconds && seconds <= after.timestamp());
}

#[test]
fn recordings_are_saved_once_read_back() {
    assert!(wav_saved(&WavSave::Written(Ok(()))));
    assert!(!wav_saved(&WavSave::Written(Err("short".to_string()))));
    assert!(!wav_saved(&WavSave::NotWritten("full".to_string())));
    assert!(!wav_saved(&WavSave::TaskFailed("panicked".to_string())));
}

#[test]
fn users_are_told_of_calls_that_ran_and_failed() {
    let outcome = |done: bool, tell_user: bool| PasteOutcome { done, tell_user };
    assert_eq!(paste_outcome(&MainThreadCall::NotRun), outcome(false, false));
    assert_eq!(paste_outcome(&MainThreadCall::NoReply), outcome(false, false));
    assert_eq!(
        paste_outcome(&MainThreadCall::Reply(Ok(()))),
        outcome(true, false)
    );
    assert_eq!(
        paste_outcome(&MainThreadCall::Reply(Err("no window".to_string()))),
        outcome(false, true)
    );
}

#[test]
fn recordings_go_all_the_way() {
    let mut pipeline = pipeline();
    assert!(pipeline.advance(transcribed(false, true, Ok("hello"))).is_none());
    assert!(matches!(
        &pipeline.stage,
        Stage::Processing { saved: true, transcription } if transcription == "hello"
    ));
    check_entry(pipeline.advance(processed(false, "Hello.")), "hello", Some("Hello."));
    assert!(matches!(&pipeline.stage, Stage::Inserting { text } if text == "Hello."));
    assert!(pipeline.advance(inserted(Ok(()))).is_none());
    assert!(matches!(
        &pipeline.stage,
        Stage::Done { inserted: Some(text) } if text == "Hello."
    ));
    assert!(pipeline.advance(inserted(Err("late".to_string()))).is_none());
    assert!(matches!(pipeline.stage, Stage::Done { inserted: Some(_) }));
}

#[test]
fn failed_recordings_are_kept_for_another_try() {
    let mut saved = pipeline();
    check_entry(saved.advance(transcribed(false, true, Err("no model"))), "", None);
    assert!(is_done_without_text(&saved));

    let mut lost = pipeline();
    assert!(lost.advance(transcribed(false, false, Err("no model"))).is_none());
    assert!(is_done_without_text(&lost));
}

#[test]
fn recordings_that_are_not_saved_leave_no_entry() {
    let mut pipeline = pipeline();
    pipeline.advance(transcribed(false, false, Ok("hello")));
    assert!(pipeline.advance(processed(false, "Hello.")).is_none());
    assert!(matches!(pipeline.stage, Stage::Inserting { .. }));
}

#[test]
fn empty_texts_are_not_inserted() {
    let mut pipeline = pipeline();
    pipeline.advance(transcribed(false, true, Ok("hello")));
    check_entry(pipeline.advance(processed(false, "")), "hello", Some(""));
    assert!(is_done_without_text(&pipeline));
}

#[test]
fn cancelled_recordings_leave_nothing() {
    let mut early = pipeline();
    assert!(early.advance(transcribed(true, true, Ok("hello"))).is_none());
    assert!(is_done_without_text(&early));

    let mut failed = pipeline();
    assert!(failed.advance(transcribed(true, true, Err("no model"))).is_none());
    assert!(is_done_without_text(&failed));

    let mut late = pipeline();
    late.advance(transcribed(false, true, Ok("hello")));
    assert!(late.advance(processed(true, "Hello.")).is_none());
    assert!(is_done_without_text(&late));
}

#[test]
fn texts_that_could_not_be_inserted_do_not_count() {
    for call in [
        MainThreadCall::NotRun,
        MainThreadCall::NoReply,
        MainThreadCall::Reply(Err("no window".to_string())),
    ] {
        let mut pipeline = pipeline();
        pipeline.advance(transcribed(false, true, Ok("hello")));
        pipeline.advance(processed(false, "Hello."));
        assert!(pipeline.advance(PipelineEvent::Inserted { call }).is_none());
        assert!(is_done_without_text(&pipeline));
    }
}

#[test]
fn events_out_of_turn_change_nothing() {
    let mut pipeline = pipeline();
    assert!(pipeline.advance(processed(false, "Hello.")).is_none());
    assert!(pipeline.advance(inserted(Ok(()))).is_none());
    assert!(matches!(pipeline.stage, Stage::Transcribing));
    pipeline.advance(transcribed(false, true, Ok("hello")));
    assert!(pipeline.advance(transcribed(true, true, Ok("again"))).is_none());
    assert!(matches!(
        &pipeline.stage,
        Stage::Processing { transcription, .. } if transcription == "hello"
    ));
}
