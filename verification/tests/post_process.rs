use handy_core::actions::post_process::{
    find_selected_prompt, post_process_transcription, read_structured_reply, reply_schema,
    structured_text, ChatRequest, OnDeviceReply, PostProcessAction, PostProcessEvent,
    PostProcessJob, TRANSCRIPTION_FIELD,
};
use handy_core::actions::prompt::{
    build_system_prompt, flush_context_input, flush_context_instruction, strip_invisible_chars,
};
use handy_core::settings::{
    AppSettings, FlushPostProcessContext, PostProcessPrompt, PostProcessProvider,
};
use handy_core::table::StringTable;

const INSTRUCTION: &str =
    "\nUse the previous finalized text only for context. Return only the cleaned current chunk.";

fn settings(provider_id: &str, structured: bool) -> AppSettings {
    let mut models = StringTable::new();
    models.insert(provider_id.to_string(), " 512 ".to_string());
    let mut keys = StringTable::new();
    keys.insert(provider_id.to_string(), "key".to_string());
    AppSettings {
        bindings: StringTable::new(),
        selected_language: "auto".to_string(),
        always_on_microphone: false,
        post_process_enabled: true,
        post_process_provider: Some(PostProcessProvider {
            id: provider_id.to_string(),
            supports_structured_output: structured,
        }),
        apple_intelligence_provider_id: "on_device".to_string(),
        post_process_models: models,
        post_process_api_keys: keys,
        post_process_selected_prompt_id: Some("p".to_string()),
        post_process_prompts: vec![
            PostProcessPrompt {
                id: "other".to_string(),
                prompt: "Other".to_string(),
            },
            PostProcessPrompt {
                id: "p".to_string(),
                prompt: " Clean: ${output} \n".to_string(),
            },
            PostProcessPrompt {
                id: "p".to_string(),
                prompt: "Second".to_string(),
            },
        ],
        flush_post_process_context: FlushPostProcessContext::FullSession,
    }
}

fn job(provider_id: &str, structured: bool, context: Option<&str>) -> PostProcessJob {
    post_process_transcription(&settings(provider_id, structured), "hello", context).unwrap()
}

fn structured_request(action: PostProcessAction) -> ChatRequest {
    match action {
        PostProcessAction::SendStructured(request) => request,
        other => panic!("{:?}", other),
    }
}

fn prompt_request(action: PostProcessAction) -> ChatRequest {
    match action {
        PostProcessAction::SendPrompt(request) => request,
        other => panic!("{:?}", other),
    }
}

fn finished(action: PostProcessAction) -> Option<String> {
    match action {
        PostProcessAction::Finish(text) => text,
        other => panic!("{:?}", other),
    }
}

#[test]
fn strips_invisible_characters() {
    assert_eq!(
        strip_invisible_chars("\u{FEFF}a\u{200B}b\u{200C}\u{200D}c\u{200E}"),
        "abc\u{200E}"
    );
    assert_eq!(strip_invisible_chars(""), "");
    let once = strip_invisible_chars("x\u{200B}\u{200B}y");
    assert_eq!(strip_invisible_chars(&once), once);
}

#[test]
fn system_prompts_lack_the_placeholder() {
    assert_eq!(build_system_prompt(" Clean: ${output} \n"), "Clean:");
    assert_eq!(build_system_prompt("a${output}b${output}c"), "abc");
    assert_eq!(build_system_prompt("${output}"), "");
    assert_eq!(build_system_prompt("no placeholder"), "no placeholder");
}

#[test]
fn context_stands_before_the_chunk() {
    assert_eq!(
        flush_context_input("now", Some("before")),
        "Previous finalized text for context:\nbefore\n\nCurrent chunk to clean and return:\nnow"
    );
    assert_eq!(flush_context_input("now", Some(" \n")), "now");
    assert_eq!(flush_context_input("now", None), "now");
    assert_eq!(flush_context_instruction(Some("before")), INSTRUCTION);
    assert_eq!(flush_context_instruction(Some("\t")), "");
    assert_eq!(flush_context_instruction(None), "");
}

#[test]
fn finds_the_first_prompt_with_the_selected_id() {
    let mut settings = settings("custom", false);
    assert_eq!(
        find_selected_prompt(&settings),
        Some(" Clean: ${output} \n".to_string())
    );
    settings.post_process_selected_prompt_id = Some("none".to_string());
    assert_eq!(find_selected_prompt(&settings), None);
    settings.post_process_selected_prompt_id = None;
    assert_eq!(find_selected_prompt(&settings), None);
}

#[test]
fn jobs_hold_what_the_settings_say() {
    let job = job("openai", true, Some("before"));
    assert_eq!(job.provider_id, "openai");
    assert!(job.supports_structured_output);
    assert!(!job.on_device);
    assert_eq!(job.model, " 512 ");
    assert_eq!(job.prompt, " Clean: ${output} \n");
    assert_eq!(job.api_key, "key");
    assert_eq!(job.transcription, "hello");
    assert_eq!(job.prior_context, Some("before".to_string()));
}

#[test]
fn jobs_need_provider_model_and_prompt() {
    let mut no_provider = settings("openai", true);
    no_provider.post_process_provider = None;
    assert!(post_process_transcription(&no_provider, "hello", None).is_none());

    let mut no_model = settings("openai", true);
    no_model.post_process_models = StringTable::new();
    assert!(post_process_transcription(&no_model, "hello", None).is_none());
    no_model
        .post_process_models
        .insert("openai".to_string(), " \t".to_string());
    assert!(post_process_transcription(&no_model, "hello", None).is_none());

    let mut no_prompt = settings("openai", true);
    no_prompt.post_process_selected_prompt_id = None;
    assert!(post_process_transcription(&no_prompt, "hello", None).is_none());
    no_prompt.post_process_selected_prompt_id = Some("missing".to_string());
    assert!(post_process_transcription(&no_prompt, "hello", None).is_none());

    let mut blank_prompt = settings("openai", true);
    blank_prompt.post_process_prompts = vec![PostProcessPrompt {
        id: "p".to_string(),
        prompt: "\n".to_string(),
    }];
    assert!(post_process_transcription(&blank_prompt, "hello", None).is_none());

    let mut no_key = settings("openai", true);
    no_key.post_process_api_keys = StringTable::new();
    let job = post_process_transcription(&no_key, "hello", None).unwrap();
    assert_eq!(job.api_key, "");
}

#[test]
fn structured_providers_are_asked_with_a_schema() {
    let request = structured_request(job("openai", true, Some("before")).first_action());
    assert_eq!(request.provider_id, "openai");
    assert_eq!(request.api_key, "key");
    assert_eq!(request.model, " 512 ");
    assert_eq!(
        request.user_content,
        "Previous finalized text for context:\nbefore\n\nCurrent chunk to clean and return:\nhello"
    );
    assert_eq!(
        request.system_prompt,
        Some(format!("Clean:{}", INSTRUCTION))
    );
    assert_eq!(request.reasoning_effort, None);
    assert!(request.reasoning.is_none());
}

#[test]
fn other_providers_are_asked_with_a_prompt() {
    let request = prompt_request(job("custom", false, None).first_action());
    assert_eq!(request.user_content, " Clean: hello \n");
    assert_eq!(request.system_prompt, None);
    assert_eq!(request.reasoning_effort, Some("none".to_string()));
    assert!(request.reasoning.is_none());

    let request = prompt_request(job("openrouter", false, Some("before")).first_action());
    assert_eq!(
        request.user_content,
        format!(
            " Clean: Previous finalized text for context:\nbefore\n\nCurrent chunk to clean and return:\nhello \n{}",
            INSTRUCTION
        )
    );
    assert_eq!(request.reasoning_effort, None);
    let reasoning = request.reasoning.unwrap();
    assert_eq!(reasoning.effort, Some("none".to_string()));
    assert_eq!(reasoning.exclude, Some(true));
}

#[test]
fn on_device_models_have_a_token_limit() {
    match job("on_device", true, None).first_action() {
        PostProcessAction::AskOnDevice {
            system_prompt,
            user_content,
            token_limit,
        } => {
            assert_eq!(system_prompt, "Clean:");
            assert_eq!(user_content, "hello");
            assert_eq!(token_limit, 512);
        }
        other => panic!("{:?}", other),
    }
    let mut settings = settings("on_device", true);
    settings
        .post_process_models
        .insert("on_device".to_string(), "default".to_string());
    let job = post_process_transcription(&settings, "hello", None).unwrap();
    assert!(matches!(
        job.first_action(),
        PostProcessAction::AskOnDevice { token_limit: 0, .. }
    ));
}

#[test]
fn on_device_without_structured_output_is_asked_with_a_prompt() {
    prompt_request(job("on_device", false, None).first_action());
}

#[test]
fn on_device_replies() {
    let job = job("on_device", true, None);
    let reply = |reply: OnDeviceReply| finished(job.next_action(PostProcessEvent::OnDevice(reply)));
    assert_eq!(reply(OnDeviceReply::Unavailable), None);
    assert_eq!(reply(OnDeviceReply::Failed("error".to_string())), None);
    assert_eq!(reply(OnDeviceReply::Text(" ".to_string())), None);
    assert_eq!(
        reply(OnDeviceReply::Text(" a\u{200B}b ".to_string())),
        Some(" ab ".to_string())
    );
    assert_eq!(
        reply(OnDeviceReply::Text("\u{200B}".to_string())),
        Some("".to_string())
    );
}

#[test]
fn structured_replies() {
    let job = job("openai", true, None);
    let text = |content: &str| {
        finished(job.next_action(PostProcessEvent::Structured(Ok(Some(content.to_string())))))
    };
    assert_eq!(
        text("{\"transcription\":\"Hello.\u{200D}\"}"),
        Some("Hello.".to_string())
    );
    assert_eq!(
        text("{\"other\": 1, \"transcription\": \"a\\n\\u00e4\"}"),
        Some("a\n\u{e4}".to_string())
    );
    assert_eq!(
        text("{\"transcription\": 5}"),
        Some("{\"transcription\": 5}".to_string())
    );
    assert_eq!(text("{}\u{FEFF}"), Some("{}".to_string()));
    assert_eq!(text("[\"transcription\"]"), Some("[\"transcription\"]".to_string()));
    assert_eq!(text("plain \u{200B}text"), Some("plain text".to_string()));
    assert_eq!(text(""), Some("".to_string()));
    assert_eq!(
        finished(job.next_action(PostProcessEvent::Structured(Ok(None)))),
        None
    );
}

#[test]
fn failed_structured_requests_are_followed_by_a_prompt() {
    let job = job("openai", true, None);
    let request = prompt_request(
        job.next_action(PostProcessEvent::Structured(Err("unsupported".to_string()))),
    );
    assert_eq!(request.user_content, " Clean: hello \n");
    assert_eq!(request.system_prompt, None);
}

#[test]
fn prompt_replies() {
    let job = job("openai", false, None);
    assert_eq!(
        finished(job.next_action(PostProcessEvent::Prompt(Ok(Some("{\u{200B}}".to_string()))))),
        Some("{}".to_string())
    );
    assert_eq!(
        finished(job.next_action(PostProcessEvent::Prompt(Ok(None)))),
        None
    );
    assert_eq!(
        finished(job.next_action(PostProcessEvent::Prompt(Err("down".to_string())))),
        None
    );
}

#[test]
fn reads_replies_that_follow_the_schema() {
    let schema: serde_json::Value = serde_json::from_str(reply_schema()).unwrap();
    assert_eq!(schema["type"], "object");
    assert_eq!(schema["properties"][TRANSCRIPTION_FIELD]["type"], "string");
    assert_eq!(
        schema["properties"][TRANSCRIPTION_FIELD]["description"],
        "The cleaned and processed transcription text"
    );
    assert_eq!(schema["required"][0], TRANSCRIPTION_FIELD);
    assert_eq!(schema["required"].as_array().map(|names| names.len()), Some(1));
    assert_eq!(schema["additionalProperties"], false);
    assert_eq!(schema.as_object().map(|members| members.len()), Some(4));

    for value in ["", "Hello, world.", "\u{6f22}\u{5b57}\u{7f}"] {
        let content = format!("{{\"{}\":\"{}\"}}", TRANSCRIPTION_FIELD, value);
        assert_eq!(read_structured_reply(&content), value);
    }
    assert_eq!(structured_text("all", Some("a\u{200B}".to_string())), "a");
    assert_eq!(structured_text("all\u{200B}", None), "all");
}
