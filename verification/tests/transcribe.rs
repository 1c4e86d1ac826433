use handy_core::actions::pipeline::Stage;
use handy_core::actions::transcribe::{
    lookup_action, recording_error, stage_effects, start_effects, started_effects, stop_effects,
    stop_step, RecordingStart, ShortcutActionKind, StartEffect, StopEffect, StopStep,
};

#[test]
fn ids_have_actions() {
    assert_eq!(
        lookup_action("transcribe"),
        Some(ShortcutActionKind::Transcribe { post_process: false })
    );
    assert_eq!(
        lookup_action("transcribe_with_post_process"),
        Some(ShortcutActionKind::Transcribe { post_process: true })
    );
    assert_eq!(lookup_action("cancel"), Some(ShortcutActionKind::Cancel));
    assert_eq!(lookup_action("test"), Some(ShortcutActionKind::Test));
    assert_eq!(lookup_action("Transcribe"), None);
    assert_eq!(lookup_action(""), None);
}

#[test]
fn the_sound_comes_first_where_the_microphone_is_always_on() {
    assert_eq!(
        start_effects(true),
        vec![
            StartEffect::LoadModel,
            StartEffect::PreloadVoiceDetection,
            StartEffect::ShowRecording,
            StartEffect::ShowOverlay,
            StartEffect::PlaySoundThenMute { delay_ms: 0 },
            StartEffect::StartRecording,
        ]
    );
    assert_eq!(
        started_effects(true, RecordingStart::Started { in_chunks: false }),
        vec![StartEffect::RegisterCancelShortcut]
    );
    assert_eq!(
        started_effects(true, RecordingStart::Started { in_chunks: true }),
        vec![StartEffect::StartFlushWorker, StartEffect::RegisterCancelShortcut]
    );
}

#[test]
fn the_sound_comes_later_where_the_microphone_is_switched_on() {
    assert_eq!(
        start_effects(false),
        vec![
            StartEffect::LoadModel,
            StartEffect::PreloadVoiceDetection,
            StartEffect::ShowRecording,
            StartEffect::ShowOverlay,
            StartEffect::StartRecording,
        ]
    );
    assert_eq!(
        started_effects(false, RecordingStart::Started { in_chunks: true }),
        vec![
            StartEffect::StartFlushWorker,
            StartEffect::PlaySoundThenMute { delay_ms: 100 },
            StartEffect::RegisterCancelShortcut,
        ]
    );
}

#[test]
fn recordings_that_do_not_start_are_reported() {
    for always_on in [false, true] {
        assert_eq!(
            started_effects(always_on, RecordingStart::Failed),
            vec![
                StartEffect::HideOverlay,
                StartEffect::ShowIdle,
                StartEffect::ReportError,
            ]
        );
    }
    for (denied, none, error_type) in [
        (true, false, "microphone_permission_denied"),
        (true, true, "microphone_permission_denied"),
        (false, true, "no_input_device"),
        (false, false, "unknown"),
    ] {
        let event = recording_error("error".to_string(), denied, none);
        assert_eq!(event.error_type, error_type);
        assert_eq!(event.detail, Some("error".to_string()));
    }
}

#[test]
fn stopping_unmutes_before_the_sound() {
    assert_eq!(
        stop_effects(),
        vec![
            StopEffect::UnregisterCancelShortcut,
            StopEffect::ShowTranscribing,
            StopEffect::ShowTranscribingOverlay,
            StopEffect::Unmute,
            StopEffect::PlaySound,
            StopEffect::TakeFlushSession,
        ]
    );
}

#[test]
fn recordings_without_samples_are_dropped() {
    assert_eq!(stop_step(false, None), StopStep::ShowIdle);
    assert_eq!(stop_step(false, Some(0)), StopStep::ShowIdle);
    assert_eq!(stop_step(false, Some(1)), StopStep::Transcribe);
    assert_eq!(stop_step(true, None), StopStep::FinishSession);
    assert_eq!(stop_step(true, Some(1)), StopStep::FinishSession);
}

#[test]
fn dictations_end_idle() {
    let processing = Stage::Processing {
        saved: true,
        transcription: "hello".to_string(),
    };
    assert_eq!(
        stage_effects(&processing, true),
        vec![StopEffect::ShowProcessingOverlay]
    );
    assert!(stage_effects(&processing, false).is_empty());
    assert_eq!(
        stage_effects(&Stage::Done { inserted: None }, true),
        vec![StopEffect::HideOverlay, StopEffect::ShowIdle]
    );
    assert!(stage_effects(&Stage::Transcribing, true).is_empty());
    let inserting = Stage::Inserting {
        text: "hello".to_string(),
    };
    assert!(stage_effects(&inserting, true).is_empty());
}
