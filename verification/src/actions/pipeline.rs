//! A recording on its way: transcribed, processed, kept in the history, inserted.

use super::output;
use super::output::ProcessedTranscription;
use super::post_process;
use vstd::prelude::*;

verus! {

/// What came of saving a recording in a file: the task that saves it failed, or it
/// could not write the file, or it wrote it, and reading it back succeeded or not.
#[derive(Debug)]
pub enum WavSave {
    TaskFailed(String),
    NotWritten(String),
    Written(Result<(), String>),
}

/// Whether a recording is safely in its file.
pub open spec fn is_saved(save: WavSave) -> bool {
    save matches WavSave::Written(verified) && verified is Ok
}

/// Tells whether a recording is safely in its file.
pub fn wav_saved(save: &WavSave) -> (r: bool)
    ensures
        r == is_saved(*save),
{
    match save {
        WavSave::Written(Ok(_)) => true,
        _ => false,
    }
}

/// What came of a call that is to run on the main thread.
#[derive(Debug)]
pub enum MainThreadCall {
    NotRun,
    NoReply,
    Reply(Result<(), String>),
}

/// What is made of such a call: whether it did its work, and whether the user is told
/// that it did not.
#[derive(Clone, Copy, Debug, PartialEq, Eq, Structural)]
pub struct PasteOutcome {
    pub done: bool,
    pub tell_user: bool,
}

/// What is made of a call on the main thread: the user is told where it ran and
/// failed.
pub open spec fn outcome_of(call: MainThreadCall) -> PasteOutcome {
    PasteOutcome {
        done: call matches MainThreadCall::Reply(result) && result is Ok,
        tell_user: call matches MainThreadCall::Reply(result) && result is Err,
    }
}

/// Decides what is made of inserting text, or of submitting it, on the main thread.
pub fn paste_outcome(call: &MainThreadCall) -> (r: PasteOutcome)
    ensures
        r == outcome_of(*call),
{
    match call {
        MainThreadCall::Reply(Ok(_)) => PasteOutcome { done: true, tell_user: false },
        MainThreadCall::Reply(Err(_)) => PasteOutcome { done: false, tell_user: true },
        _ => PasteOutcome { done: false, tell_user: false },
    }
}

/// An entry of the history.
#[derive(Debug)]
pub struct HistoryEntry {
    pub file_name: String,
    pub transcription: String,
    pub post_process: bool,
    pub post_processed_text: Option<String>,
    pub post_process_prompt: Option<String>,
}

/// An entry of the history.
pub struct EntryModel {
    pub file_name: Seq<char>,
    pub transcription: Seq<char>,
    pub post_process: bool,
    pub post_processed_text: Option<Seq<char>>,
    pub post_process_prompt: Option<Seq<char>>,
}

impl View for HistoryEntry {
    type V = EntryModel;

    open spec fn view(&self) -> EntryModel {
        EntryModel {
            file_name: self.file_name@,
            transcription: self.transcription@,
            post_process: self.post_process,
            post_processed_text: post_process::owned_chars(self.post_processed_text),
            post_process_prompt: post_process::owned_chars(self.post_process_prompt),
        }
    }
}

/// The model of an optional entry.
pub open spec fn entry_model(entry: Option<HistoryEntry>) -> Option<EntryModel> {
    match entry {
        Some(entry) => Some(entry@),
        None => None,
    }
}

/// How far a recording is: it is being transcribed, its transcription is being
/// processed, a text is being inserted, or it is done, and a text was inserted or not.
pub enum StageModel {
    Transcribing,
    Processing { saved: bool, transcription: Seq<char> },
    Inserting { text: Seq<char> },
    Done { inserted: Option<Seq<char>> },
}

/// A recording on its way.
pub struct PipelineModel {
    pub file_name: Seq<char>,
    pub post_process: bool,
    pub stage: StageModel,
}

/// What happens to a recording, and whether it is cancelled by then.
#[derive(Debug)]
pub enum PipelineEvent {
    Transcribed { cancelled: bool, save: WavSave, result: Result<String, String> },
    Processed { cancelled: bool, processed: ProcessedTranscription },
    Inserted { call: MainThreadCall },
}

/// The entry of a recording that was transcribed.
pub open spec fn done_entry(
    pipeline: PipelineModel,
    transcription: Seq<char>,
    processed: output::OutputModel,
) -> EntryModel {
    EntryModel {
        file_name: pipeline.file_name,
        transcription,
        post_process: pipeline.post_process,
        post_processed_text: processed.post_processed_text,
        post_process_prompt: processed.post_process_prompt,
    }
}

/// The entry of a recording that could not be transcribed: without text, so that the
/// user can try again.
pub open spec fn failed_entry(pipeline: PipelineModel) -> EntryModel {
    EntryModel {
        file_name: pipeline.file_name,
        transcription: Seq::empty(),
        post_process: pipeline.post_process,
        post_processed_text: None,
        post_process_prompt: None,
    }
}

/// How far a recording is after an event, and what goes into the history, if anything
/// does: what is safely in its file, unless it was cancelled.
pub open spec fn advanced(pipeline: PipelineModel, event: PipelineEvent) -> (
    StageModel,
    Option<EntryModel>,
) {
    let nothing = StageModel::Done { inserted: None };
    match (pipeline.stage, event) {
        (
            StageModel::Transcribing,
            PipelineEvent::Transcribed { cancelled, save, result },
        ) => if cancelled {
            (nothing, None)
        } else {
            match result {
                Ok(text) => (
                    StageModel::Processing { saved: is_saved(save), transcription: text@ },
                    None,
                ),
                Err(_) => (
                    nothing,
                    if is_saved(save) {
                        Some(failed_entry(pipeline))
                    } else {
                        None
                    },
                ),
            }
        },
        (
            StageModel::Processing { saved, transcription },
            PipelineEvent::Processed { cancelled, processed },
        ) => if cancelled {
            (nothing, None)
        } else {
            (
                if processed@.final_text.len() == 0 {
                    nothing
                } else {
                    StageModel::Inserting { text: processed@.final_text }
                },
                if saved {
                    Some(done_entry(pipeline, transcription, processed@))
                } else {
                    None
                },
            )
        },
        (StageModel::Inserting { text }, PipelineEvent::Inserted { call }) => (
            StageModel::Done {
                inserted: if outcome_of(call).done {
                    Some(text)
                } else {
                    None
                },
            },
            None,
        ),
        _ => (pipeline.stage, None),
    }
}

/// How far a recording is.
#[derive(Debug)]
pub enum Stage {
    Transcribing,
    Processing { saved: bool, transcription: String },
    Inserting { text: String },
    Done { inserted: Option<String> },
}

impl View for Stage {
    type V = StageModel;

    open spec fn view(&self) -> StageModel {
        match *self {
            Stage::Transcribing => StageModel::Transcribing,
            Stage::Processing { saved, transcription } => StageModel::Processing {
                saved,
                transcription: transcription@,
            },
            Stage::Inserting { text } => StageModel::Inserting { text: text@ },
            Stage::Done { inserted } => StageModel::Done {
                inserted: post_process::owned_chars(inserted),
            },
        }
    }
}

/// A recording on its way.
#[derive(Debug)]
pub struct Pipeline {
    pub file_name: String,
    pub post_process: bool,
    pub stage: Stage,
}

impl View for Pipeline {
    type V = PipelineModel;

    open spec fn view(&self) -> PipelineModel {
        PipelineModel {
            file_name: self.file_name@,
            post_process: self.post_process,
            stage: self.stage@,
        }
    }
}

impl Pipeline {
    /// A recording that is to be transcribed.
    pub fn new(file_name: String, post_process: bool) -> (r: Self)
        ensures
            r@ == (PipelineModel {
                file_name: file_name@,
                post_process,
                stage: StageModel::Transcribing,
            }),
    {
        Pipeline { file_name, post_process, stage: Stage::Transcribing }
    }

    /// Takes an event into account, and hands out what goes into the history.
    pub fn advance(&mut self, event: PipelineEvent) -> (r: Option<HistoryEntry>)
        ensures
            final(self)@.file_name == old(self)@.file_name,
            final(self)@.post_process == old(self)@.post_process,
            (final(self)@.stage, entry_model(r)) == advanced(old(self)@, event),
    {
        let mut stage = Stage::Done { inserted: None };
        std::mem::swap(&mut stage, &mut self.stage);
        match (stage, event) {
            (Stage::Transcribing, PipelineEvent::Transcribed { cancelled, save, result }) => {
                if cancelled {
                    return None;
                }
                let saved = wav_saved(&save);
                match result {
                    Ok(transcription) => {
                        self.stage = Stage::Processing { saved, transcription };
                        None
                    },
                    Err(_) => if saved {
                        Some(
                            HistoryEntry {
                                file_name: self.file_name.clone(),
                                transcription: String::new(),
                                post_process: self.post_process,
                                post_processed_text: None,
                                post_process_prompt: None,
                            },
                        )
                    } else {
                        None
                    },
                }
            },
            (
                Stage::Processing { saved, transcription },
                PipelineEvent::Processed { cancelled, processed },
            ) => {
                if cancelled {
                    return None;
                }
                if !processed.final_text.as_str().is_empty() {
                    self.stage = Stage::Inserting { text: processed.final_text };
                }
                if saved {
                    Some(
                        HistoryEntry {
                            file_name: self.file_name.clone(),
                            transcription,
                            post_process: self.post_process,
                            post_processed_text: processed.post_processed_text,
                            post_process_prompt: processed.post_process_prompt,
                        },
                    )
                } else {
                    None
                }
            },
            (Stage::Inserting { text }, PipelineEvent::Inserted { call }) => {
                if paste_outcome(&call).done {
                    self.stage = Stage::Done { inserted: Some(text) };
                }
                None
            },
            (unchanged, _) => {
                self.stage = unchanged;
                None
            },
        }
    }
}

/// How many events a recording is away from being done.
pub open spec fn steps_left(stage: StageModel) -> nat {
    match stage {
        StageModel::Transcribing => 3,
        StageModel::Processing { saved, transcription } => 2,
        StageModel::Inserting { text } => 1,
        StageModel::Done { inserted } => 0,
    }
}

/// The event that a recording waits for.
pub open spec fn awaited(stage: StageModel, event: PipelineEvent) -> bool {
    match stage {
        StageModel::Transcribing => event is Transcribed,
        StageModel::Processing { saved, transcription } => event is Processed,
        StageModel::Inserting { text } => event is Inserted,
        StageModel::Done { inserted } => false,
    }
}

/// Whether an event says that the recording was cancelled.
pub open spec fn cancels(event: PipelineEvent) -> bool {
    match event {
        PipelineEvent::Transcribed { cancelled, save, result } => cancelled,
        PipelineEvent::Processed { cancelled, processed } => cancelled,
        PipelineEvent::Inserted { call } => false,
    }
}

/// An event that is waited for brings a recording nearer to being done, and any other
/// changes nothing. A recording that is cancelled is done at once, with nothing
/// inserted and nothing in the history.
pub proof fn lemma_pipeline_ends(pipeline: PipelineModel, event: PipelineEvent)
    ensures
        ({
            let (stage, entry) = advanced(pipeline, event);
            if awaited(pipeline.stage, event) {
                &&& steps_left(stage) < steps_left(pipeline.stage)
                &&& cancels(event) ==> stage == StageModel::Done { inserted: None } && entry is None
            } else {
                stage == pipeline.stage && entry is None
            }
        }),
{
}

/// The stage and the entries of a recording after some events.
pub open spec fn after_events(start: PipelineModel, events: Seq<PipelineEvent>) -> (
    StageModel,
    Seq<EntryModel>,
)
    decreases events.len(),
{
    if events.len() == 0 {
        (start.stage, Seq::empty())
    } else {
        let (stage, entries) = after_events(start, events.drop_last());
        let (next, entry) = advanced(PipelineModel { stage, ..start }, events.last());
        (
            next,
            match entry {
                Some(entry) => entries.push(entry),
                None => entries,
            },
        )
    }
}

/// Whatever happens, a recording leaves at most one entry in the history, which has its
/// file name, and none while it is being transcribed or processed.
pub proof fn lemma_one_entry(file_name: Seq<char>, post_process: bool, events: Seq<PipelineEvent>)
    ensures
        ({
            let start = PipelineModel {
                file_name,
                post_process,
                stage: StageModel::Transcribing,
            };
            let (stage, entries) = after_events(start, events);
            &&& entries.len() <= 1
            &&& entries.len() == 1 ==> entries[0].file_name == file_name && entries[0].post_process
                == post_process
            &&& stage is Transcribing || stage is Processing ==> entries.len() == 0
        }),
    decreases events.len(),
{
    if events.len() > 0 {
        lemma_one_entry(file_name, post_process, events.drop_last());
    }
}

/// Whether an event brings a text to insert.
pub open spec fn brings(event: PipelineEvent, text: Seq<char>) -> bool {
    &&& event matches PipelineEvent::Processed { cancelled, processed }
    &&& !cancelled
    &&& processed@.final_text == text
}

/// What is inserted of a recording is the text that processing it gave, unless that is
/// empty.
pub proof fn lemma_inserted_text(
    file_name: Seq<char>,
    post_process: bool,
    events: Seq<PipelineEvent>,
    text: Seq<char>,
)
    requires
        ({
            let start = PipelineModel {
                file_name,
                post_process,
                stage: StageModel::Transcribing,
            };
            let stage = after_events(start, events).0;
            stage == StageModel::Inserting { text } || stage == StageModel::Done {
                inserted: Some(text),
            }
        }),
    ensures
        text.len() > 0,
        exists|i: int| 0 <= i < events.len() && brings(#[trigger] events[i], text),
    decreases events.len(),
{
    let before = events.drop_last();
    let start = PipelineModel { file_name, post_process, stage: StageModel::Transcribing };
    let stage = after_events(start, before).0;
    let kept = stage == StageModel::Inserting { text } || stage == (StageModel::Done {
        inserted: Some(text),
    });
    if kept {
        lemma_inserted_text(file_name, post_process, before, text);
        let i = choose|i: int| 0 <= i < before.len() && brings(#[trigger] before[i], text);
        assert(brings(events[i], text));
    } else {
        assert(brings(events[events.len() - 1], text));
    }
}

} // verus!
