//! A recording's way: from its samples to the text that is inserted.

use crate::actions::output::ProcessedTranscription;
use crate::actions::pipeline;
use crate::actions::pipeline::{
    paste_outcome, wav_saved, EntryModel, HistoryEntry, MainThreadCall, PasteOutcome, Pipeline,
    PipelineEvent, PipelineModel, Stage, StageModel, WavSave,
};
use vstd::prelude::*;

verus! {

/// A recording is saved only where its file was written and read back.
pub proof fn lemma_saved(save: &WavSave, r: bool)
    requires
        call_ensures(wav_saved, (save,), r),
    ensures
        match save {
            WavSave::Written(Ok(_)) => r,
            WavSave::Written(Err(_)) => !r,
            WavSave::NotWritten(_) => !r,
            WavSave::TaskFailed(_) => !r,
        },
        r == pipeline::is_saved(*save),
{
}

/// A call on the main thread did its work only where it ran and succeeded, and the user is
/// told only where it ran and failed.
pub proof fn lemma_main_thread_call(call: &MainThreadCall, r: PasteOutcome)
    requires
        call_ensures(paste_outcome, (call,), r),
    ensures
        match call {
            MainThreadCall::Reply(Ok(_)) => r.done && !r.tell_user,
            MainThreadCall::Reply(Err(_)) => !r.done && r.tell_user,
            MainThreadCall::NoReply => !r.done && !r.tell_user,
            MainThreadCall::NotRun => !r.done && !r.tell_user,
        },
        r == pipeline::outcome_of(*call),
{
}

/// What stands for a recording on its way, and for an entry of the history, holds all that
/// they hold.
pub proof fn lemma_pipeline_stands_for(recording: Pipeline, entry: HistoryEntry)
    ensures
        recording@.file_name == recording.file_name@,
        recording@.post_process == recording.post_process,
        match recording.stage {
            Stage::Transcribing => recording@.stage == StageModel::Transcribing,
            Stage::Processing { saved, transcription } => recording@.stage
                == StageModel::Processing { saved, transcription: transcription@ },
            Stage::Inserting { text } => recording@.stage == StageModel::Inserting { text: text@ },
            Stage::Done { inserted: Some(text) } => recording@.stage == StageModel::Done {
                inserted: Some(text@),
            },
            Stage::Done { inserted: None } => recording@.stage == StageModel::Done {
                inserted: None,
            },
        },
        entry@.file_name == entry.file_name@,
        entry@.transcription == entry.transcription@,
        entry@.post_process == entry.post_process,
        match (entry.post_processed_text, entry@.post_processed_text) {
            (Some(text), Some(model)) => text@ == model,
            (None, None) => true,
            _ => false,
        },
        match (entry.post_process_prompt, entry@.post_process_prompt) {
            (Some(text), Some(model)) => text@ == model,
            (None, None) => true,
            _ => false,
        },
        pipeline::entry_model(Some(entry)) == Some(entry@),
        pipeline::entry_model(None) == None::<EntryModel>,
{
}

/// A recording that was transcribed goes on to be processed, with its transcription, and
/// is not in the history yet. One that failed is done; it is in the history, without text,
/// where its file is saved.
pub proof fn lemma_transcribed(
    recording: PipelineModel,
    save: WavSave,
    result: Result<String, String>,
)
    requires
        recording.stage is Transcribing,
    ensures
        ({
            let (stage, entry) = pipeline::advanced(
                recording,
                PipelineEvent::Transcribed { cancelled: false, save, result },
            );
            let saved = save matches WavSave::Written(verified) && verified is Ok;
            match result {
                Ok(text) => {
                    &&& stage == StageModel::Processing { saved, transcription: text@ }
                    &&& entry is None
                },
                Err(_) => {
                    &&& stage == StageModel::Done { inserted: None }
                    &&& entry is Some <==> saved
                    &&& entry matches Some(kept) ==> {
                        &&& kept.file_name == recording.file_name
                        &&& kept.transcription.len() == 0
                        &&& kept.post_process == recording.post_process
                        &&& kept.post_processed_text is None
                        &&& kept.post_process_prompt is None
                    }
                },
            }
        }),
{
}

/// A text that was processed is inserted unless it is empty, whether or not post-processing
/// was asked for; and the recording is in the history, with its transcription and with
/// what was made of it, exactly where its file is saved.
pub proof fn lemma_processed(
    recording: PipelineModel,
    saved: bool,
    transcription: Seq<char>,
    processed: ProcessedTranscription,
)
    requires
        recording.stage == (StageModel::Processing { saved, transcription }),
    ensures
        ({
            let (stage, entry) = pipeline::advanced(
                recording,
                PipelineEvent::Processed { cancelled: false, processed },
            );
            &&& processed.final_text@.len() > 0 ==> stage == StageModel::Inserting {
                text: processed.final_text@,
            }
            &&& processed.final_text@.len() == 0 ==> stage == StageModel::Done { inserted: None }
            &&& entry is Some <==> saved
            &&& entry matches Some(kept) ==> {
                &&& kept.file_name == recording.file_name
                &&& kept.transcription == transcription
                &&& kept.post_process == recording.post_process
                &&& match (processed.post_processed_text, kept.post_processed_text) {
                    (Some(text), Some(model)) => text@ == model,
                    (None, None) => true,
                    _ => false,
                }
                &&& match (processed.post_process_prompt, kept.post_process_prompt) {
                    (Some(text), Some(model)) => text@ == model,
                    (None, None) => true,
                    _ => false,
                }
            }
        }),
{
}

/// A text counts as inserted exactly where the call that inserts it succeeded, and nothing
/// more goes into the history.
pub proof fn lemma_inserted(recording: PipelineModel, text: Seq<char>, call: MainThreadCall)
    requires
        recording.stage == (StageModel::Inserting { text }),
    ensures
        ({
            let (stage, entry) = pipeline::advanced(recording, PipelineEvent::Inserted { call });
            &&& entry is None
            &&& stage == StageModel::Done {
                inserted: if call matches MainThreadCall::Reply(result) && result is Ok {
                    Some(text)
                } else {
                    None
                },
            }
        }),
{
}

/// A recording that is cancelled while it is transcribed or processed is done, with
/// nothing inserted and nothing in the history, whatever came of it.
pub proof fn lemma_cancelled(
    recording: PipelineModel,
    save: WavSave,
    result: Result<String, String>,
    processed: ProcessedTranscription,
)
    ensures
        recording.stage is Transcribing ==> pipeline::advanced(
            recording,
            PipelineEvent::Transcribed { cancelled: true, save, result },
        ) == (StageModel::Done { inserted: None }, None::<EntryModel>),
        recording.stage is Processing ==> pipeline::advanced(
            recording,
            PipelineEvent::Processed { cancelled: true, processed },
        ) == (StageModel::Done { inserted: None }, None::<EntryModel>),
{
}

/// An event that a recording does not wait for changes nothing.
pub proof fn lemma_out_of_turn(recording: PipelineModel, event: PipelineEvent)
    requires
        match event {
            PipelineEvent::Transcribed { cancelled, save, result } => !(
            recording.stage is Transcribing),
            PipelineEvent::Processed { cancelled, processed } => !(recording.stage is Processing),
            PipelineEvent::Inserted { call } => !(recording.stage is Inserting),
        },
    ensures
        pipeline::advanced(recording, event) == (recording.stage, None::<EntryModel>),
{
}

/// A recording starts with being transcribed, under the name and the wish it was given.
pub proof fn lemma_starts(file_name: String, post_process: bool, r: Pipeline)
    requires
        call_ensures(Pipeline::new, (file_name, post_process), r),
    ensures
        r.file_name@ == file_name@,
        r.post_process == post_process,
        r.stage is Transcribing,
{
    lemma_pipeline_stands_for(r, arbitrary());
}

} // verus!
