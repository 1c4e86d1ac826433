use handy_core::actions::output::{
    chinese_script_config, finish_output, keep_converted, llm_context,
    maybe_convert_chinese_variant, plan_output, process_flush_transcription_output,
    process_transcription_output, ProcessedTranscription,
};
use handy_core::settings::{
    AppSettings, FlushPostProcessContext, PostProcessPrompt, PostProcessProvider,
};
use handy_core::table::StringTable;

fn settings(language: &str) -> AppSettings {
    let mut models = StringTable::new();
    models.insert("openai".to_string(), "model".to_string());
    AppSettings {
        bindings: StringTable::new(),
        selected_language: language.to_string(),
        always_on_microphone: false,
        post_process_enabled: true,
        post_process_provider: Some(PostProcessProvider {
            id: "openai".to_string(),
            supports_structured_output: true,
        }),
        apple_intelligence_provider_id: "on_device".to_string(),
        post_process_models: models,
        post_process_api_keys: StringTable::new(),
        post_process_selected_prompt_id: Some("p".to_string()),
        post_process_prompts: vec![PostProcessPrompt {
            id: "p".to_string(),
            prompt: "Clean: ${output}".to_string(),
        }],
        flush_post_process_context: FlushPostProcessContext::FullSession,
    }
}

fn parts(processed: ProcessedTranscription) -> (String, Option<String>, Option<String>) {
    (
        processed.final_text,
        processed.post_processed_text,
        processed.post_process_prompt,
    )
}

#[test]
fn only_chinese_scripts_are_converted() {
    assert_eq!(chinese_script_config("zh-Hans"), Some("tw2sp.json"));
    assert_eq!(chinese_script_config("zh-Hant"), Some("s2tw.json"));
    for language in ["zh", "en", "auto", "", "zh-hans"] {
        assert_eq!(chinese_script_config(language), None);
        assert_eq!(
            maybe_convert_chinese_variant(&settings(language), "\u{6c49}\u{5b57}"),
            None
        );
    }
}

#[test]
fn converts_between_chinese_scripts() {
    assert_eq!(
        maybe_convert_chinese_variant(&settings("zh-Hant"), "\u{6c49}\u{5b57}"),
        Some("\u{6f22}\u{5b57}".to_string())
    );
    assert_eq!(
        maybe_convert_chinese_variant(&settings("zh-Hans"), "\u{6f22}\u{5b57}"),
        Some("\u{6c49}\u{5b57}".to_string())
    );
    assert_eq!(
        maybe_convert_chinese_variant(&settings("zh-Hans"), "abc"),
        Some("abc".to_string())
    );
    assert_eq!(keep_converted(Ok("a".to_string())), Some("a".to_string()));
}

#[test]
fn conversions_that_cannot_be_set_up_are_passed_over() {
    let error = ferrous_opencc::config::BuiltinConfig::from_filename("none.json").unwrap_err();
    assert_eq!(keep_converted(Err(error)), None);
}

#[test]
fn the_model_is_shown_the_session_where_asked_for() {
    assert_eq!(
        llm_context(FlushPostProcessContext::FullSession, "before"),
        Some("before")
    );
    assert_eq!(llm_context(FlushPostProcessContext::FullSession, " \n"), None);
    assert_eq!(llm_context(FlushPostProcessContext::ChunkOnly, "before"), None);
}

#[test]
fn plans_the_output_of_a_recording() {
    let plan = process_transcription_output(&settings("en"), "hello", false);
    assert_eq!(plan.converted, None);
    assert!(plan.job.is_none());

    let plan = process_transcription_output(&settings("zh-Hant"), "\u{6c49}", true);
    assert_eq!(plan.converted, Some("\u{6f22}".to_string()));
    let job = plan.job.unwrap();
    assert_eq!(job.transcription, "\u{6f22}");
    assert_eq!(job.prior_context, None);

    let plan = plan_output(&settings("en"), "hello", None, true, Some("before"));
    let job = plan.job.unwrap();
    assert_eq!(job.transcription, "hello");
    assert_eq!(job.prior_context, Some("before".to_string()));
}

#[test]
fn plans_the_output_of_a_chunk() {
    let mut settings = settings("en");
    let plan = process_flush_transcription_output(&settings, "hello", true, "before");
    assert_eq!(
        plan.job.unwrap().prior_context,
        Some("before".to_string())
    );
    let plan = process_flush_transcription_output(&settings, "hello", true, "");
    assert_eq!(plan.job.unwrap().prior_context, None);
    settings.flush_post_process_context = FlushPostProcessContext::ChunkOnly;
    let plan = process_flush_transcription_output(&settings, "hello", true, "before");
    assert_eq!(plan.job.unwrap().prior_context, None);
    let plan = process_flush_transcription_output(&settings, "hello", false, "before");
    assert!(plan.job.is_none());
}

#[test]
fn output_is_the_processed_text() {
    let settings = settings("en");
    let some = |text: &str| Some(text.to_string());
    assert_eq!(
        parts(finish_output(&settings, "a", None, true, some("b"))),
        ("b".to_string(), some("b"), some("Clean: ${output}"))
    );
    assert_eq!(
        parts(finish_output(&settings, "a", some("c"), true, None)),
        ("c".to_string(), None, None)
    );
    assert_eq!(
        parts(finish_output(&settings, "a", some("c"), false, None)),
        ("c".to_string(), some("c"), None)
    );
    assert_eq!(
        parts(finish_output(&settings, "a", some("a"), false, None)),
        ("a".to_string(), None, None)
    );
    assert_eq!(
        parts(finish_output(&settings, "a", None, false, None)),
        ("a".to_string(), None, None)
    );
    assert_eq!(
        parts(finish_output(&settings, "a", None, true, some(""))),
        ("".to_string(), some(""), some("Clean: ${output}"))
    );
}
