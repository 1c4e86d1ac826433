//! Dictations: what their start and stop do, and what their files are called.

use crate::actions::pipeline::Stage;
use crate::actions::recording;
use crate::actions::recording::{
    flush_file_name, new_flush_file_name, new_recording_file_name, recording_file_name,
};
use crate::actions::transcribe::{
    lookup_action, recording_error, stage_effects, start_effects, started_effects, stop_effects,
    stop_step, RecordingErrorEvent, RecordingStart, ShortcutActionKind, StartEffect, StopEffect,
    StopStep,
};
use crate::text;
use vstd::prelude::*;

verus! {

/// Four ids have an action: two that dictate, with and without post-processing, one that
/// cancels and one that tests.
pub proof fn lemma_actions(binding_id: &str, r: Option<ShortcutActionKind>)
    requires
        call_ensures(lookup_action, (binding_id,), r),
    ensures
        r == Some(ShortcutActionKind::Transcribe { post_process: false }) <==> binding_id@
            == "transcribe"@,
        r == Some(ShortcutActionKind::Transcribe { post_process: true }) <==> binding_id@
            == "transcribe_with_post_process"@,
        r == Some(ShortcutActionKind::Cancel) <==> binding_id@ == "cancel"@,
        r == Some(ShortcutActionKind::Test) <==> binding_id@ == "test"@,
{
    reveal_strlit("transcribe");
    reveal_strlit("transcribe_with_post_process");
    reveal_strlit("cancel");
    reveal_strlit("test");
    assert("transcribe"@.len() == 10);
    assert("transcribe_with_post_process"@.len() == 28);
    assert("cancel"@.len() == 6);
    assert("test"@.len() == 4);
}

/// A start loads the model and the voice detection and shows that it records before the
/// recording starts, which comes last. Where the microphone is always on, the sound is
/// played just before the recording, without delay, and else not yet.
pub proof fn lemma_start_does(always_on: bool, r: Vec<StartEffect>)
    requires
        call_ensures(start_effects, (always_on,), r),
    ensures
        r@.len() == (if always_on {
            6int
        } else {
            5int
        }),
        r@[0] is LoadModel,
        r@[1] is PreloadVoiceDetection,
        r@[2] is ShowRecording,
        r@[3] is ShowOverlay,
        always_on ==> r@[4] == (StartEffect::PlaySoundThenMute { delay_ms: 0 }),
        r@[r@.len() - 1] is StartRecording,
{
}

/// Once a recording has started, its chunks are followed, where it goes in chunks; the
/// sound is played after a tenth of a second, where the microphone was switched on for it;
/// and it can be cancelled. Where it did not start, the overlay is hidden, the app is idle,
/// and the error is reported.
pub proof fn lemma_started_does(always_on: bool, start: RecordingStart, r: Vec<StartEffect>)
    requires
        call_ensures(started_effects, (always_on, start), r),
    ensures
        match start {
            RecordingStart::Started { in_chunks } => {
                &&& r@.len() == 1 + (if in_chunks {
                    1int
                } else {
                    0int
                }) + (if always_on {
                    0int
                } else {
                    1int
                })
                &&& in_chunks ==> r@[0] is StartFlushWorker
                &&& !always_on ==> r@[r@.len() - 2] == (StartEffect::PlaySoundThenMute {
                    delay_ms: 100,
                })
                &&& r@[r@.len() - 1] is RegisterCancelShortcut
            },
            RecordingStart::Failed => {
                &&& r@.len() == 3
                &&& r@[0] is HideOverlay
                &&& r@[1] is ShowIdle
                &&& r@[2] is ReportError
            },
        },
{
}

/// A recording that did not start is reported with the error as it came, and as denied
/// access above all, then as a missing device, then as unknown.
pub proof fn lemma_error_reported(
    error: String,
    access_denied: bool,
    no_input_device: bool,
    r: RecordingErrorEvent,
)
    requires
        call_ensures(recording_error, (error, access_denied, no_input_device), r),
    ensures
        r.detail == Some(error),
        access_denied ==> r.error_type@ == "microphone_permission_denied"@,
        !access_denied && no_input_device ==> r.error_type@ == "no_input_device"@,
        !access_denied && !no_input_device ==> r.error_type@ == "unknown"@,
{
}

/// A stop ends the session of a recording in chunks; else it transcribes what there is, and
/// is idle where there is nothing.
pub proof fn lemma_stop_goes_on(in_chunks: bool, samples: Option<usize>, r: StopStep)
    requires
        call_ensures(stop_step, (in_chunks, samples), r),
    ensures
        r is FinishSession <==> in_chunks,
        r is Transcribe <==> !in_chunks && samples is Some && samples->0 > 0,
        r is ShowIdle <==> !in_chunks && (samples is None || samples->0 == 0),
{
}

/// A stop takes back the shortcut that cancels, shows that it transcribes, and takes back
/// the mute before it plays its sound; then it takes the session.
pub proof fn lemma_stop_does(r: Vec<StopEffect>)
    requires
        call_ensures(stop_effects, (), r),
    ensures
        r@.len() == 6,
        r@[0] is UnregisterCancelShortcut,
        r@[1] is ShowTranscribing,
        r@[2] is ShowTranscribingOverlay,
        r@[3] is Unmute,
        r@[4] is PlaySound,
        r@[5] is TakeFlushSession,
{
}

/// While a text is processed, that is shown where post-processing was asked for; once a
/// dictation is done, the overlay is hidden and the app is idle; nothing else is shown.
pub proof fn lemma_stage_shown(stage: &Stage, post_process: bool, r: Vec<StopEffect>)
    requires
        call_ensures(stage_effects, (stage, post_process), r),
    ensures
        match stage {
            Stage::Transcribing => r@.len() == 0,
            Stage::Processing { saved, transcription } => if post_process {
                r@.len() == 1 && r@[0] is ShowProcessingOverlay
            } else {
                r@.len() == 0
            },
            Stage::Inserting { text } => r@.len() == 0,
            Stage::Done { inserted } => r@.len() == 2 && r@[0] is HideOverlay && r@[1] is ShowIdle,
        },
{
}

/// The file of a chunk is named by the time in milliseconds and the chunk's number, and
/// that of a recording by the time in seconds.
pub proof fn lemma_file_names(
    millis: i64,
    chunk_index: u64,
    chunk: String,
    seconds: i64,
    recording: String,
)
    requires
        call_ensures(flush_file_name, (millis, chunk_index), chunk),
        call_ensures(recording_file_name, (seconds,), recording),
    ensures
        chunk@ == "handy-"@ + text::signed_decimal(millis as int) + "-flush-"@ + text::decimal(
            chunk_index as nat,
        ) + ".wav"@,
        recording@ == "handy-"@ + text::signed_decimal(seconds as int) + ".wav"@,
{
}

/// The files of now are named by a time that was read from the clock.
pub proof fn lemma_file_names_now(chunk_index: u64, chunk: String, whole: String)
    requires
        call_ensures(new_flush_file_name, (chunk_index,), chunk),
        call_ensures(new_recording_file_name, (), whole),
    ensures
        exists|millis: i64|
            {
                &&& #[trigger] recording::read_millis(millis)
                &&& chunk@ == "handy-"@ + text::signed_decimal(millis as int) + "-flush-"@
                    + text::decimal(chunk_index as nat) + ".wav"@
            },
        exists|seconds: i64|
            {
                &&& #[trigger] recording::read_seconds(seconds)
                &&& whole@ == "handy-"@ + text::signed_decimal(seconds as int) + ".wav"@
            },
{
}

} // verus!
