//! What starting and stopping a dictation does.

use super::pipeline::{Stage, StageModel};
use crate::text::same_str;
use vstd::prelude::*;

verus! {

/// What a binding id stands for.
#[derive(Clone, Copy, Debug, PartialEq, Eq, Structural)]
pub enum ShortcutActionKind {
    Transcribe { post_process: bool },
    Cancel,
    Test,
}

/// The action of a binding id, if it has one.
pub open spec fn action_of(binding_id: Seq<char>) -> Option<ShortcutActionKind> {
    if binding_id == "transcribe"@ {
        Some(ShortcutActionKind::Transcribe { post_process: false })
    } else if binding_id == "transcribe_with_post_process"@ {
        Some(ShortcutActionKind::Transcribe { post_process: true })
    } else if binding_id == "cancel"@ {
        Some(ShortcutActionKind::Cancel)
    } else if binding_id == "test"@ {
        Some(ShortcutActionKind::Test)
    } else {
        None
    }
}

/// Looks up the action of a binding id.
pub fn lookup_action(binding_id: &str) -> (r: Option<ShortcutActionKind>)
    ensures
        r == action_of(binding_id@),
{
    if same_str(binding_id, "transcribe") {
        Some(ShortcutActionKind::Transcribe { post_process: false })
    } else if same_str(binding_id, "transcribe_with_post_process") {
        Some(ShortcutActionKind::Transcribe { post_process: true })
    } else if same_str(binding_id, "cancel") {
        Some(ShortcutActionKind::Cancel)
    } else if same_str(binding_id, "test") {
        Some(ShortcutActionKind::Test)
    } else {
        None
    }
}

/// Something that starting a dictation does.
#[derive(Clone, Copy, Debug, PartialEq, Eq, Structural)]
pub enum StartEffect {
    LoadModel,
    PreloadVoiceDetection,
    ShowRecording,
    ShowOverlay,
    PlaySoundThenMute { delay_ms: u64 },
    StartRecording,
    StartFlushWorker,
    RegisterCancelShortcut,
    HideOverlay,
    ShowIdle,
    ReportError,
}

/// What starting a dictation does, in order, up to the start of the recording: the
/// sound comes before it where the microphone is always on.
pub open spec fn opening_effects(always_on: bool) -> Seq<StartEffect> {
    seq![
        StartEffect::LoadModel,
        StartEffect::PreloadVoiceDetection,
        StartEffect::ShowRecording,
        StartEffect::ShowOverlay,
    ] + (if always_on {
        seq![StartEffect::PlaySoundThenMute { delay_ms: 0 }]
    } else {
        Seq::empty()
    }) + seq![StartEffect::StartRecording]
}

/// What starting a dictation does.
pub fn start_effects(always_on: bool) -> (r: Vec<StartEffect>)
    ensures
        r@ == opening_effects(always_on),
{
    let mut r: Vec<StartEffect> = Vec::new();
    r.push(StartEffect::LoadModel);
    r.push(StartEffect::PreloadVoiceDetection);
    r.push(StartEffect::ShowRecording);
    r.push(StartEffect::ShowOverlay);
    if always_on {
        r.push(StartEffect::PlaySoundThenMute { delay_ms: 0 });
    }
    r.push(StartEffect::StartRecording);
    assert(r@ =~= opening_effects(always_on));
    r
}

/// What came of starting a recording.
#[derive(Clone, Copy, Debug, PartialEq, Eq, Structural)]
pub enum RecordingStart {
    Started { in_chunks: bool },
    Failed,
}

/// What is done, in order, once the recording has started or not: the sound comes a
/// little after it where the microphone is switched on for it.
pub open spec fn following_effects(always_on: bool, start: RecordingStart) -> Seq<StartEffect> {
    match start {
        RecordingStart::Started { in_chunks } => (if in_chunks {
            seq![StartEffect::StartFlushWorker]
        } else {
            Seq::empty()
        }) + (if always_on {
            Seq::empty()
        } else {
            seq![StartEffect::PlaySoundThenMute { delay_ms: 100 }]
        }) + seq![StartEffect::RegisterCancelShortcut],
        RecordingStart::Failed => seq![
            StartEffect::HideOverlay,
            StartEffect::ShowIdle,
            StartEffect::ReportError,
        ],
    }
}

/// What is done once the recording has started or not.
pub fn started_effects(always_on: bool, start: RecordingStart) -> (r: Vec<StartEffect>)
    ensures
        r@ == following_effects(always_on, start),
{
    let mut r: Vec<StartEffect> = Vec::new();
    match start {
        RecordingStart::Started { in_chunks } => {
            if in_chunks {
                r.push(StartEffect::StartFlushWorker);
            }
            if !always_on {
                r.push(StartEffect::PlaySoundThenMute { delay_ms: 100 });
            }
            r.push(StartEffect::RegisterCancelShortcut);
        },
        RecordingStart::Failed => {
            r.push(StartEffect::HideOverlay);
            r.push(StartEffect::ShowIdle);
            r.push(StartEffect::ReportError);
        },
    }
    assert(r@ =~= following_effects(always_on, start));
    r
}

/// A dictation that starts plays its sound once, whichever way the microphone is used,
/// and can be cancelled; one that does not start leaves nothing to cancel, and is
/// reported.
pub proof fn lemma_start(always_on: bool, start: RecordingStart)
    ensures
        ({
            let all = opening_effects(always_on) + following_effects(always_on, start);
            let sounds = all.filter(|effect: StartEffect| effect is PlaySoundThenMute);
            &&& start is Started ==> sounds.len() == 1
            &&& all.contains(StartEffect::RegisterCancelShortcut) <==> start is Started
            &&& all.contains(StartEffect::ReportError) <==> start is Failed
        }),
{
    let opening = opening_effects(always_on);
    let following = following_effects(always_on, start);
    let all = opening + following;
    let sound = |effect: StartEffect| effect is PlaySoundThenMute;
    if start is Started {
        assert(all[all.len() - 1] == StartEffect::RegisterCancelShortcut);
        reveal_with_fuel(Seq::filter, 10);
        if always_on {
            assert(all.filter(sound).len() == 1);
        } else {
            assert(all.filter(sound).len() == 1);
        }
    } else {
        assert(all[all.len() - 1] == StartEffect::ReportError);
    }
}

/// What the user interface is told of a recording that did not start.
#[derive(Debug)]
pub struct RecordingErrorEvent {
    pub error_type: String,
    pub detail: Option<String>,
}

/// The kind of an error that kept a recording from starting.
pub open spec fn error_type(access_denied: bool, no_input_device: bool) -> Seq<char> {
    if access_denied {
        "microphone_permission_denied"@
    } else if no_input_device {
        "no_input_device"@
    } else {
        "unknown"@
    }
}

/// Makes the event of an error that kept a recording from starting.
pub fn recording_error(
    error: String,
    access_denied: bool,
    no_input_device: bool,
) -> (r: RecordingErrorEvent)
    ensures
        r.error_type@ == error_type(access_denied, no_input_device),
        r.detail == Some(error),
{
    let error_type = if access_denied {
        "microphone_permission_denied"
    } else if no_input_device {
        "no_input_device"
    } else {
        "unknown"
    };
    RecordingErrorEvent { error_type: error_type.to_owned(), detail: Some(error) }
}

/// What is done with a recording that was stopped: its session is finished, it is
/// transcribed, or nothing.
#[derive(Clone, Copy, Debug, PartialEq, Eq, Structural)]
pub enum StopStep {
    FinishSession,
    Transcribe,
    ShowIdle,
}

/// Decides what is done with a recording that was stopped, from whether it went in
/// chunks and from the number of samples.
pub fn stop_step(in_chunks: bool, samples: Option<usize>) -> (r: StopStep)
    ensures
        r == (if in_chunks {
            StopStep::FinishSession
        } else if samples matches Some(count) && count > 0 {
            StopStep::Transcribe
        } else {
            StopStep::ShowIdle
        }),
{
    if in_chunks {
        return StopStep::FinishSession;
    }
    match samples {
        Some(count) => if count == 0 {
            StopStep::ShowIdle
        } else {
            StopStep::Transcribe
        },
        None => StopStep::ShowIdle,
    }
}

/// Something that stopping a dictation does.
#[derive(Clone, Copy, Debug, PartialEq, Eq, Structural)]
pub enum StopEffect {
    UnregisterCancelShortcut,
    ShowTranscribing,
    ShowTranscribingOverlay,
    Unmute,
    PlaySound,
    TakeFlushSession,
    ShowProcessingOverlay,
    HideOverlay,
    ShowIdle,
}

/// What stopping a dictation does at once, in order: the sound is heard, because it
/// comes after the mute is taken back.
pub open spec fn closing_effects() -> Seq<StopEffect> {
    seq![
        StopEffect::UnregisterCancelShortcut,
        StopEffect::ShowTranscribing,
        StopEffect::ShowTranscribingOverlay,
        StopEffect::Unmute,
        StopEffect::PlaySound,
        StopEffect::TakeFlushSession,
    ]
}

/// What stopping a dictation does at once.
pub fn stop_effects() -> (r: Vec<StopEffect>)
    ensures
        r@ == closing_effects(),
{
    let mut r: Vec<StopEffect> = Vec::new();
    r.push(StopEffect::UnregisterCancelShortcut);
    r.push(StopEffect::ShowTranscribing);
    r.push(StopEffect::ShowTranscribingOverlay);
    r.push(StopEffect::Unmute);
    r.push(StopEffect::PlaySound);
    r.push(StopEffect::TakeFlushSession);
    assert(r@ =~= closing_effects());
    r
}

/// What the user sees of a dictation that reaches a stage.
pub open spec fn shown_at(stage: StageModel, post_process: bool) -> Seq<StopEffect> {
    match stage {
        StageModel::Processing { saved, transcription } => if post_process {
            seq![StopEffect::ShowProcessingOverlay]
        } else {
            Seq::empty()
        },
        StageModel::Done { inserted } => seq![StopEffect::HideOverlay, StopEffect::ShowIdle],
        _ => Seq::empty(),
    }
}

/// What the user is shown of a dictation that reaches a stage.
pub fn stage_effects(stage: &Stage, post_process: bool) -> (r: Vec<StopEffect>)
    ensures
        r@ == shown_at(stage@, post_process),
{
    let mut r: Vec<StopEffect> = Vec::new();
    match stage {
        Stage::Processing { .. } => {
            if post_process {
                r.push(StopEffect::ShowProcessingOverlay);
            }
        },
        Stage::Done { .. } => {
            r.push(StopEffect::HideOverlay);
            r.push(StopEffect::ShowIdle);
        },
        _ => {},
    }
    assert(r@ =~= shown_at(stage@, post_process));
    r
}

} // verus!
