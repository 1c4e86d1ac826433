//! Post-processing of a transcription by a language model.

use super::prompt;
use super::prompt::{
    build_system_prompt, flush_context_input, flush_context_instruction, strip_invisible_chars,
};
use crate::settings::{AppSettings, PostProcessPrompt};
use crate::table;
use crate::table::StringTable;
use crate::text;
use crate::text::{chars_of, is_blank, parse_i32, replace_slice, same_str, string_of, trim_slice};
use vstd::prelude::*;

verus! {

/// The member of a structured reply that holds the text.
pub const TRANSCRIPTION_FIELD: &'static str = "transcription";

/// The JSON schema that a structured reply is to follow: an object with nothing but
/// the text.
pub fn reply_schema() -> (r: &'static str)
    ensures
        r@
            == "{\"type\":\"object\",\"properties\":{\"transcription\":{\"type\":\"string\",\"description\":\"The cleaned and processed transcription text\"}},\"required\":[\"transcription\"],\"additionalProperties\":false}"@,
{
    "{\"type\":\"object\",\"properties\":{\"transcription\":{\"type\":\"string\",\"description\":\"The cleaned and processed transcription text\"}},\"required\":[\"transcription\"],\"additionalProperties\":false}"
}

/// The error of reading JSON.
#[verifier::external_type_specification]
#[verifier::external_body]
pub struct ExJsonError(serde_json::Error);

/// What reading `content` as JSON and looking up a member gives: nothing where it is
/// no JSON, and within that nothing where it is no object with such a member that is
/// a string.
pub uninterp spec fn json_string_member(content: Seq<char>, member: Seq<char>) -> Option<
    Option<Seq<char>>,
>;

/// Whether a text stands in JSON as it is: without quotation marks, backslashes and
/// control characters.
pub open spec fn json_plain(s: Seq<char>) -> bool {
    forall|i: int| 0 <= i < s.len() ==> #[trigger] s[i] != '"' && s[i] != '\\' && s[i] >= ' '
}

/// A JSON object with one member, which is a string.
pub open spec fn json_object(member: Seq<char>, value: Seq<char>) -> Seq<char> {
    "{\""@ + member + "\":\""@ + value + "\"}"@
}

/// `serde_json::from_str`, into a `serde_json::Value`, followed by `Value::get`. The
/// contract names what they give for the content and the member. It says besides
/// that an object of one member, both texts plain, gives the member's value.
#[verifier::external_body]
fn read_json_string_member(content: &str, member: &str) -> (r: Result<
    Option<String>,
    serde_json::Error,
>)
    ensures
        match r {
            Ok(Some(value)) => json_string_member(content@, member@) == Some(Some(value@)),
            Ok(None) => json_string_member(content@, member@) == Some(None::<Seq<char>>),
            Err(_) => json_string_member(content@, member@) is None,
        },
        forall|value: Seq<char>|
            json_plain(member@) && #[trigger] json_plain(value) && content@ == json_object(
                member@,
                value,
            ) ==> r is Ok && r->Ok_0 is Some && r->Ok_0->0@ == value,
{
    let json: serde_json::Value = serde_json::from_str(content)?;
    Ok(
        match json.get(member) {
            Some(serde_json::Value::String(value)) => Some(value.clone()),
            _ => None,
        },
    )
}

/// The text of a structured reply: that of its member, stripped, or all of the reply,
/// stripped, where it has no such member.
pub open spec fn reply_text(content: Seq<char>, member: Option<Option<Seq<char>>>) -> Seq<char> {
    match member {
        Some(Some(value)) => prompt::stripped(value),
        _ => prompt::stripped(content),
    }
}

/// Makes a text of a structured reply and of the member that was found in it.
pub fn structured_text(content: &str, member: Option<String>) -> (r: String)
    ensures
        match member {
            Some(value) => r@ == prompt::stripped(value@),
            None => r@ == prompt::stripped(content@),
        },
{
    match member {
        Some(value) => strip_invisible_chars(value.as_str()),
        None => strip_invisible_chars(content),
    }
}

/// Reads the text of a structured reply.
pub fn read_structured_reply(content: &str) -> (r: String)
    ensures
        r@ == reply_text(content@, json_string_member(content@, TRANSCRIPTION_FIELD@)),
        forall|value: Seq<char>|
            #[trigger] json_plain(value) && content@ == json_object("transcription"@, value) ==> r@
                == prompt::stripped(value),
{
    proof {
        reveal_strlit("transcription");
    }
    match read_json_string_member(content, TRANSCRIPTION_FIELD) {
        Ok(member) => structured_text(content, member),
        Err(_) => structured_text(content, None),
    }
}

/// The first prompt from `from` on that has an id.
pub open spec fn find_prompt(
    prompts: Seq<PostProcessPrompt>,
    id: Seq<char>,
    from: int,
) -> Option<Seq<char>>
    decreases prompts.len() - from,
{
    if from < 0 || from >= prompts.len() {
        None
    } else if prompts[from].id@ == id {
        Some(prompts[from].prompt@)
    } else {
        find_prompt(prompts, id, from + 1)
    }
}

/// The prompt that is selected, if one is and there is such a prompt.
pub open spec fn selected_prompt(settings: AppSettings) -> Option<Seq<char>> {
    match settings.post_process_selected_prompt_id {
        Some(id) => find_prompt(settings.post_process_prompts@, id@, 0),
        None => None,
    }
}

/// Finds the prompt that is selected.
pub fn find_selected_prompt(settings: &AppSettings) -> (r: Option<String>)
    ensures
        match r {
            Some(text) => selected_prompt(*settings) == Some(text@),
            None => selected_prompt(*settings) is None,
        },
{
    let id = match &settings.post_process_selected_prompt_id {
        Some(id) => id,
        None => {
            return None;
        },
    };
    let prompts = &settings.post_process_prompts;
    let mut i: usize = 0;
    while i < prompts.len()
        invariant
            i <= prompts.len(),
            selected_prompt(*settings) == find_prompt(prompts@, id@, i as int),
        decreases prompts.len() - i,
    {
        if same_str(prompts[i].id.as_str(), id.as_str()) {
            return Some(prompts[i].prompt.clone());
        }
        i += 1;
    }
    None
}

/// The text under a key, empty where there is none.
pub open spec fn text_under(entries: Seq<(Seq<char>, String)>, key: Seq<char>) -> Seq<char> {
    match table::lookup(entries, key) {
        Some(value) => value@,
        None => Seq::empty(),
    }
}

/// Looks up the text under a key.
fn find_text(texts: &StringTable<String>, key: &str) -> (r: String)
    ensures
        r@ == text_under(texts.entries(), key@),
{
    match texts.get(key) {
        Some(value) => value.clone(),
        None => String::new(),
    }
}

/// What is to be post-processed, and how.
pub struct JobModel {
    pub provider_id: Seq<char>,
    pub structured: bool,
    pub on_device: bool,
    pub model: Seq<char>,
    pub prompt: Seq<char>,
    pub api_key: Seq<char>,
    pub transcription: Seq<char>,
    pub prior_context: Option<Seq<char>>,
}

/// The job that the settings make of a transcription: none where no provider is
/// active, it has no model, or there is no selected prompt with something in it.
pub open spec fn job_of(
    settings: AppSettings,
    transcription: Seq<char>,
    prior_context: Option<Seq<char>>,
) -> Option<JobModel> {
    match settings.post_process_provider {
        None => None,
        Some(provider) => {
            let model = text_under(settings.post_process_models.entries(), provider.id@);
            match selected_prompt(settings) {
                None => None,
                Some(prompt) => if text::blank(model) || text::blank(prompt) {
                    None
                } else {
                    Some(
                        JobModel {
                            provider_id: provider.id@,
                            structured: provider.supports_structured_output,
                            on_device: provider.id@ == settings.apple_intelligence_provider_id@,
                            model,
                            prompt,
                            api_key: text_under(
                                settings.post_process_api_keys.entries(),
                                provider.id@,
                            ),
                            transcription,
                            prior_context,
                        },
                    )
                },
            }
        },
    }
}

/// A transcription to be post-processed, and how.
#[derive(Debug)]
pub struct PostProcessJob {
    pub provider_id: String,
    pub supports_structured_output: bool,
    pub on_device: bool,
    pub model: String,
    pub prompt: String,
    pub api_key: String,
    pub transcription: String,
    pub prior_context: Option<String>,
}

/// The characters of an optional string.
pub open spec fn owned_chars(s: Option<String>) -> Option<Seq<char>> {
    match s {
        Some(s) => Some(s@),
        None => None,
    }
}

impl View for PostProcessJob {
    type V = JobModel;

    open spec fn view(&self) -> JobModel {
        JobModel {
            provider_id: self.provider_id@,
            structured: self.supports_structured_output,
            on_device: self.on_device,
            model: self.model@,
            prompt: self.prompt@,
            api_key: self.api_key@,
            transcription: self.transcription@,
            prior_context: owned_chars(self.prior_context),
        }
    }
}

/// Makes a job of a transcription, if the settings ask for post-processing and have
/// all that it needs.
pub fn post_process_transcription(
    settings: &AppSettings,
    transcription: &str,
    prior_context: Option<&str>,
) -> (r: Option<PostProcessJob>)
    ensures
        match r {
            Some(job) => job_of(*settings, transcription@, prompt::chars(prior_context)) == Some(
                job@,
            ),
            None => job_of(*settings, transcription@, prompt::chars(prior_context)) is None,
        },
{
    let provider = match &settings.post_process_provider {
        Some(provider) => provider,
        None => {
            return None;
        },
    };
    let model = find_text(&settings.post_process_models, provider.id.as_str());
    if is_blank(model.as_str()) {
        return None;
    }
    let prompt = match find_selected_prompt(settings) {
        Some(prompt) => prompt,
        None => {
            return None;
        },
    };
    if is_blank(prompt.as_str()) {
        return None;
    }
    let api_key = find_text(&settings.post_process_api_keys, provider.id.as_str());
    let on_device = same_str(
        provider.id.as_str(),
        settings.apple_intelligence_provider_id.as_str(),
    );
    Some(
        PostProcessJob {
            provider_id: provider.id.clone(),
            supports_structured_output: provider.supports_structured_output,
            on_device,
            model,
            prompt,
            api_key,
            transcription: transcription.to_owned(),
            prior_context: match prior_context {
                Some(context) => Some(context.to_owned()),
                None => None,
            },
        },
    )
}

/// How much a model is to reason.
pub struct ReasoningModel {
    pub effort: Option<Seq<char>>,
    pub exclude: Option<bool>,
}

/// A request to a provider.
pub struct ChatModel {
    pub provider_id: Seq<char>,
    pub api_key: Seq<char>,
    pub model: Seq<char>,
    pub user_content: Seq<char>,
    pub system_prompt: Option<Seq<char>>,
    pub reasoning_effort: Option<Seq<char>>,
    pub reasoning: Option<ReasoningModel>,
}

/// What is to be done next: nothing, with the text that came out, if any did; or ask
/// a model, on the device, with a schema for the reply, or with a plain prompt.
pub enum ActionModel {
    Finish(Option<Seq<char>>),
    AskOnDevice { system_prompt: Seq<char>, user_content: Seq<char>, token_limit: int },
    SendStructured(ChatModel),
    SendPrompt(ChatModel),
}

/// The reasoning effort at the top level of a request: switched off for servers of
/// the user's own.
pub open spec fn reasoning_effort(provider_id: Seq<char>) -> Option<Seq<char>> {
    if provider_id == "custom"@ {
        Some("none"@)
    } else {
        None
    }
}

/// The reasoning part of a request: switched off, and kept out of the reply, for
/// providers that take it so.
pub open spec fn reasoning(provider_id: Seq<char>) -> Option<ReasoningModel> {
    if provider_id == "openrouter"@ {
        Some(ReasoningModel { effort: Some("none"@), exclude: Some(true) })
    } else {
        None
    }
}

/// What the model is given of a job.
pub open spec fn user_content(job: JobModel) -> Seq<char> {
    prompt::context_input(job.transcription, job.prior_context)
}

/// The system prompt of a job.
pub open spec fn job_system_prompt(job: JobModel) -> Seq<char> {
    prompt::system_prompt(job.prompt) + prompt::context_instruction(job.prior_context)
}

/// A request of a job with the given texts.
pub open spec fn chat(
    job: JobModel,
    user_content: Seq<char>,
    system_prompt: Option<Seq<char>>,
) -> ChatModel {
    ChatModel {
        provider_id: job.provider_id,
        api_key: job.api_key,
        model: job.model,
        user_content,
        system_prompt,
        reasoning_effort: reasoning_effort(job.provider_id),
        reasoning: reasoning(job.provider_id),
    }
}

/// The limit on the model's output, which a model on the device has for its name;
/// zero where it is no number.
pub open spec fn token_limit(model: Seq<char>) -> int {
    match text::i32_value(text::trim(model)) {
        Some(limit) => limit,
        None => 0,
    }
}

/// The request with a schema for the reply.
pub open spec fn structured_request(job: JobModel) -> ChatModel {
    chat(job, user_content(job), Some(job_system_prompt(job)))
}

/// The request with a plain prompt, in which the placeholder is filled in.
pub open spec fn prompt_request(job: JobModel) -> ChatModel {
    chat(
        job,
        text::replace(job.prompt, "${output}"@, user_content(job)) + prompt::context_instruction(
            job.prior_context,
        ),
        None,
    )
}

/// What a job starts with.
pub open spec fn first_action(job: JobModel) -> ActionModel {
    if !job.structured {
        ActionModel::SendPrompt(prompt_request(job))
    } else if job.on_device {
        ActionModel::AskOnDevice {
            system_prompt: job_system_prompt(job),
            user_content: user_content(job),
            token_limit: token_limit(job.model),
        }
    } else {
        ActionModel::SendStructured(structured_request(job))
    }
}

/// The reply of a model on the device.
#[derive(Debug)]
pub enum OnDeviceReply {
    Unavailable,
    Failed(String),
    Text(String),
}

/// The reply to what was to be done.
#[derive(Debug)]
pub enum PostProcessEvent {
    OnDevice(OnDeviceReply),
    Structured(Result<Option<String>, String>),
    Prompt(Result<Option<String>, String>),
}

/// What is done about a reply: a text that came is stripped; a request with a schema
/// that failed is sent again with a plain prompt.
pub open spec fn next_action(job: JobModel, event: PostProcessEvent) -> ActionModel {
    match event {
        PostProcessEvent::OnDevice(OnDeviceReply::Text(result)) => ActionModel::Finish(
            if text::blank(result@) {
                None
            } else {
                Some(prompt::stripped(result@))
            },
        ),
        PostProcessEvent::OnDevice(_) => ActionModel::Finish(None),
        PostProcessEvent::Structured(Ok(Some(content))) => ActionModel::Finish(
            Some(reply_text(content@, json_string_member(content@, TRANSCRIPTION_FIELD@))),
        ),
        PostProcessEvent::Structured(Ok(None)) => ActionModel::Finish(None),
        PostProcessEvent::Structured(Err(_)) => ActionModel::SendPrompt(prompt_request(job)),
        PostProcessEvent::Prompt(Ok(Some(content))) => ActionModel::Finish(
            Some(prompt::stripped(content@)),
        ),
        PostProcessEvent::Prompt(_) => ActionModel::Finish(None),
    }
}

/// How much a model is to reason.
#[derive(Debug)]
pub struct ReasoningConfig {
    pub effort: Option<String>,
    pub exclude: Option<bool>,
}

/// A request to a provider.
#[derive(Debug)]
pub struct ChatRequest {
    pub provider_id: String,
    pub api_key: String,
    pub model: String,
    pub user_content: String,
    pub system_prompt: Option<String>,
    pub reasoning_effort: Option<String>,
    pub reasoning: Option<ReasoningConfig>,
}

/// What is to be done next.
#[derive(Debug)]
pub enum PostProcessAction {
    Finish(Option<String>),
    AskOnDevice { system_prompt: String, user_content: String, token_limit: i32 },
    SendStructured(ChatRequest),
    SendPrompt(ChatRequest),
}

impl View for ChatRequest {
    type V = ChatModel;

    open spec fn view(&self) -> ChatModel {
        ChatModel {
            provider_id: self.provider_id@,
            api_key: self.api_key@,
            model: self.model@,
            user_content: self.user_content@,
            system_prompt: owned_chars(self.system_prompt),
            reasoning_effort: owned_chars(self.reasoning_effort),
            reasoning: match self.reasoning {
                Some(config) => Some(
                    ReasoningModel {
                        effort: owned_chars(config.effort),
                        exclude: config.exclude,
                    },
                ),
                None => None,
            },
        }
    }
}

impl View for PostProcessAction {
    type V = ActionModel;

    open spec fn view(&self) -> ActionModel {
        match *self {
            PostProcessAction::Finish(result) => ActionModel::Finish(owned_chars(result)),
            PostProcessAction::AskOnDevice { system_prompt, user_content, token_limit } => {
                ActionModel::AskOnDevice {
                    system_prompt: system_prompt@,
                    user_content: user_content@,
                    token_limit: token_limit as int,
                }
            },
            PostProcessAction::SendStructured(request) => ActionModel::SendStructured(request@),
            PostProcessAction::SendPrompt(request) => ActionModel::SendPrompt(request@),
        }
    }
}

impl PostProcessJob {
    /// The prior context, borrowed.
    fn context(&self) -> (r: Option<&str>)
        ensures
            prompt::chars(r) == self@.prior_context,
    {
        match &self.prior_context {
            Some(context) => Some(context.as_str()),
            None => None,
        }
    }

    /// Builds the system prompt.
    fn system_prompt(&self) -> (r: String)
        ensures
            r@ == job_system_prompt(self@),
    {
        let mut prompt = build_system_prompt(self.prompt.as_str());
        prompt.append(flush_context_instruction(self.context()));
        prompt
    }

    /// Builds a request with the given texts.
    fn request(&self, user_content: String, system_prompt: Option<String>) -> (r: ChatRequest)
        ensures
            r@ == chat(self@, user_content@, owned_chars(system_prompt)),
    {
        let custom = same_str(self.provider_id.as_str(), "custom");
        let openrouter = same_str(self.provider_id.as_str(), "openrouter");
        ChatRequest {
            provider_id: self.provider_id.clone(),
            api_key: self.api_key.clone(),
            model: self.model.clone(),
            user_content,
            system_prompt,
            reasoning_effort: if custom {
                Some("none".to_owned())
            } else {
                None
            },
            reasoning: if openrouter {
                Some(ReasoningConfig { effort: Some("none".to_owned()), exclude: Some(true) })
            } else {
                None
            },
        }
    }

    /// Builds the request with a plain prompt.
    fn prompt_request(&self) -> (r: ChatRequest)
        ensures
            r@ == prompt_request(self@),
    {
        let template = chars_of(self.prompt.as_str());
        let placeholder = chars_of("${output}");
        proof {
            reveal_strlit("${output}");
        }
        let input = chars_of(
            flush_context_input(self.transcription.as_str(), self.context()).as_str(),
        );
        let filled = replace_slice(template.as_slice(), placeholder.as_slice(), input.as_slice());
        let mut content = string_of(filled.as_slice());
        content.append(flush_context_instruction(self.context()));
        self.request(content, None)
    }

    /// What the job starts with.
    pub fn first_action(&self) -> (r: PostProcessAction)
        ensures
            r@ == first_action(self@),
    {
        if !self.supports_structured_output {
            return PostProcessAction::SendPrompt(self.prompt_request());
        }
        let system_prompt = self.system_prompt();
        let user_content = flush_context_input(self.transcription.as_str(), self.context());
        if self.on_device {
            let model = chars_of(self.model.as_str());
            let token_limit: i32 = match parse_i32(trim_slice(model.as_slice())) {
                Some(limit) => limit,
                None => 0,
            };
            return PostProcessAction::AskOnDevice { system_prompt, user_content, token_limit };
        }
        PostProcessAction::SendStructured(self.request(user_content, Some(system_prompt)))
    }

    /// What is done about a reply.
    pub fn next_action(&self, event: PostProcessEvent) -> (r: PostProcessAction)
        ensures
            r@ == next_action(self@, event),
    {
        match event {
            PostProcessEvent::OnDevice(reply) => match reply {
                OnDeviceReply::Text(result) => PostProcessAction::Finish(
                    if is_blank(result.as_str()) {
                        None
                    } else {
                        Some(strip_invisible_chars(result.as_str()))
                    },
                ),
                _ => PostProcessAction::Finish(None),
            },
            PostProcessEvent::Structured(reply) => match reply {
                Ok(Some(content)) => PostProcessAction::Finish(
                    Some(read_structured_reply(content.as_str())),
                ),
                Ok(None) => PostProcessAction::Finish(None),
                Err(_) => PostProcessAction::SendPrompt(self.prompt_request()),
            },
            PostProcessEvent::Prompt(reply) => match reply {
                Ok(Some(content)) => PostProcessAction::Finish(
                    Some(strip_invisible_chars(content.as_str())),
                ),
                _ => PostProcessAction::Finish(None),
            },
        }
    }
}

/// A reply is followed by no more than one other request, and that one's reply by
/// none. Whatever text comes out holds no invisible character.
pub proof fn lemma_post_processing_ends(job: JobModel, event: PostProcessEvent)
    ensures
        match next_action(job, event) {
            ActionModel::Finish(result) => result matches Some(text) ==> forall|i: int|
                0 <= i < text.len() ==> !prompt::is_invisible(#[trigger] text[i]),
            ActionModel::SendPrompt(request) => {
                &&& event is Structured
                &&& event->Structured_0 is Err
                &&& request == prompt_request(job)
            },
            _ => false,
        },
{
    match event {
        PostProcessEvent::OnDevice(OnDeviceReply::Text(result)) => {
            prompt::lemma_stripped(result@);
        },
        PostProcessEvent::Structured(Ok(Some(content))) => {
            prompt::lemma_stripped(content@);
            match json_string_member(content@, TRANSCRIPTION_FIELD@) {
                Some(Some(value)) => prompt::lemma_stripped(value),
                _ => {},
            }
        },
        PostProcessEvent::Prompt(Ok(Some(content))) => {
            prompt::lemma_stripped(content@);
        },
        _ => {},
    }
}

/// What the models would answer, each if it is asked.
pub struct Replies {
    pub on_device: OnDeviceReply,
    pub structured: Result<Option<String>, String>,
    pub prompt: Result<Option<String>, String>,
}

/// The reply to what was to be done; none where there is nothing more to do.
pub open spec fn reply_to(action: ActionModel, replies: Replies) -> Option<PostProcessEvent> {
    match action {
        ActionModel::Finish(_) => None,
        ActionModel::AskOnDevice { system_prompt, user_content, token_limit } => Some(
            PostProcessEvent::OnDevice(replies.on_device),
        ),
        ActionModel::SendStructured(_) => Some(PostProcessEvent::Structured(replies.structured)),
        ActionModel::SendPrompt(_) => Some(PostProcessEvent::Prompt(replies.prompt)),
    }
}

/// What is to be done after an action and `steps` replies.
pub open spec fn after_replies(
    job: JobModel,
    action: ActionModel,
    replies: Replies,
    steps: nat,
) -> ActionModel
    decreases steps,
{
    match reply_to(action, replies) {
        Some(event) => if steps == 0 {
            action
        } else {
            after_replies(job, next_action(job, event), replies, (steps - 1) as nat)
        },
        None => action,
    }
}

/// What comes out of a job: from a model on the device, its text, unless that is
/// blank; from one that follows a schema, the text of its reply; and from the others,
/// and where the one with a schema failed, the reply to the plain prompt.
pub open spec fn post_processed(job: JobModel, replies: Replies) -> Option<Seq<char>> {
    if job.structured && job.on_device {
        match replies.on_device {
            OnDeviceReply::Text(result) => if text::blank(result@) {
                None
            } else {
                Some(prompt::stripped(result@))
            },
            _ => None,
        }
    } else if job.structured && replies.structured is Ok {
        match replies.structured->Ok_0 {
            Some(content) => Some(
                reply_text(content@, json_string_member(content@, TRANSCRIPTION_FIELD@)),
            ),
            None => None,
        }
    } else {
        match replies.prompt {
            Ok(Some(content)) => Some(prompt::stripped(content@)),
            _ => None,
        }
    }
}

/// Whatever the models answer, a job is over after two replies at most.
pub proof fn lemma_post_processed(job: JobModel, replies: Replies)
    ensures
        after_replies(job, first_action(job), replies, 2) == ActionModel::Finish(
            post_processed(job, replies),
        ),
{
    reveal_with_fuel(after_replies, 3);
}

} // verus!
