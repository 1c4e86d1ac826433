//! Post-processing: what is asked of which model, and what is made of the reply.

use crate::actions::post_process;
use crate::actions::post_process::{
    find_selected_prompt, post_process_transcription, read_structured_reply, structured_text,
    ChatRequest, OnDeviceReply, PostProcessAction, PostProcessEvent, PostProcessJob,
};
use crate::actions::prompt;
use crate::actions::prompt::{
    build_system_prompt, flush_context_input, flush_context_instruction, strip_invisible_chars,
};
use crate::settings::{AppSettings, PostProcessPrompt};
use crate::table;
use crate::text;
use vstd::prelude::*;

verus! {

/// Stripping goes character by character: the four that show nothing are left out, and
/// every other is kept.
pub proof fn lemma_stripped_by_character(s: Seq<char>, c: char)
    ensures
        prompt::stripped(Seq::empty()) == Seq::<char>::empty(),
        prompt::stripped(s.push(c)) == (if c as int == 0x200b || c as int == 0x200c || c as int
            == 0x200d || c as int == 0xfeff {
            prompt::stripped(s)
        } else {
            prompt::stripped(s).push(c)
        }),
{
    reveal(Seq::filter);
    assert(s.push(c).drop_last() =~= s);
}

/// What is stripped of a text is what the character by character account says.
pub proof fn lemma_strip_gives(s: &str, r: String)
    requires
        call_ensures(strip_invisible_chars, (s,), r),
    ensures
        r@ == prompt::stripped(s@),
{
}

/// A system prompt is the user's prompt without the placeholder, trimmed.
pub proof fn lemma_system_prompt_gives(template: &str, r: String)
    requires
        call_ensures(build_system_prompt, (template,), r),
    ensures
        r@ == text::trim(text::replace(template@, "${output}"@, Seq::empty())),
{
    reveal_strlit("");
    assert(""@ =~= Seq::<char>::empty());
}

/// What stands on either side of a placeholder comes together in the system prompt.
pub proof fn lemma_placeholder_gone(before: Seq<char>, after: Seq<char>)
    requires
        forall|i: int| 0 <= i < before.len() ==> #[trigger] before[i] != '$',
        forall|i: int| 0 <= i < after.len() ==> #[trigger] after[i] != '$',
    ensures
        prompt::system_prompt(before + "${output}"@ + after) == text::trim(before + after),
{
    reveal_strlit("${output}");
    reveal_strlit("");
    let pat = "${output}"@;
    let s = before + pat + after;
    let n = before.len() as int;
    assert forall|i: int|
        #![trigger s.subrange(i, i + pat.len())]
        0 <= i < n && i + pat.len() <= s.len() implies s.subrange(i, i + pat.len()) != pat by {
        assert(s.subrange(i, i + pat.len())[0] == before[i]);
    }
    assert(s.subrange(n, n + pat.len()) =~= pat);
    crate::laws::text::lemma_replaced(s, pat, ""@, n);
    assert(s.skip(n + pat.len()) =~= after);
    assert forall|i: int|
        #![trigger after.subrange(i, i + pat.len())]
        0 <= i < after.len() && i + pat.len() <= after.len() implies after.subrange(
        i,
        i + pat.len(),
    ) != pat by {
        assert(after.subrange(i, i + pat.len())[0] == after[i]);
    }
    crate::laws::text::lemma_replaced(after, pat, ""@, after.len() as int);
    assert(s.take(n) + ""@ + after =~= before + after);
}

/// A context with more than white space in it stands before the transcription, under a
/// heading of its own, and the model is told what it is for; without one, the model is
/// given the transcription alone, and told nothing.
pub proof fn lemma_context_shown(
    transcription: &str,
    prior_context: Option<&str>,
    input: String,
    instruction: &'static str,
)
    requires
        call_ensures(flush_context_input, (transcription, prior_context), input),
        call_ensures(flush_context_instruction, (prior_context,), instruction),
    ensures
        match prior_context {
            Some(context) => if exists|i: int|
                0 <= i < context@.len() && !text::is_white_space(#[trigger] context@[i]) {
                &&& input@ == "Previous finalized text for context:\n"@ + context@
                    + "\n\nCurrent chunk to clean and return:\n"@ + transcription@
                &&& instruction@
                    == "\nUse the previous finalized text only for context. Return only the cleaned current chunk."@
            } else {
                input@ == transcription@ && instruction@ == ""@
            },
            None => input@ == transcription@ && instruction@ == ""@,
        },
{
}

proof fn lemma_first_prompt(prompts: Seq<PostProcessPrompt>, id: Seq<char>, from: int)
    requires
        0 <= from <= prompts.len(),
    ensures
        match post_process::find_prompt(prompts, id, from) {
            Some(text) => exists|i: int|
                {
                    &&& from <= i < prompts.len()
                    &&& (#[trigger] prompts[i]).id@ == id
                    &&& prompts[i].prompt@ == text
                    &&& forall|j: int| from <= j < i ==> (#[trigger] prompts[j]).id@ != id
                },
            None => forall|i: int|
                from <= i < prompts.len() ==> (#[trigger] prompts[i]).id@ != id,
        },
    decreases prompts.len() - from,
{
    if from < prompts.len() {
        if prompts[from].id@ == id {
            assert(prompts[from].prompt@ == post_process::find_prompt(prompts, id, from)->0);
        } else {
            lemma_first_prompt(prompts, id, from + 1);
        }
    }
}

/// The selected prompt is the first one with the selected id; there is none where no id
/// is selected or no prompt has it.
pub proof fn lemma_selected_prompt(settings: &AppSettings, r: Option<String>)
    requires
        call_ensures(find_selected_prompt, (settings,), r),
    ensures
        ({
            let prompts = settings.post_process_prompts@;
            match (settings.post_process_selected_prompt_id, r) {
                (Some(id), Some(text)) => exists|i: int|
                    {
                        &&& 0 <= i < prompts.len()
                        &&& (#[trigger] prompts[i]).id@ == id@
                        &&& prompts[i].prompt@ == text@
                        &&& forall|j: int| 0 <= j < i ==> (#[trigger] prompts[j]).id@ != id@
                    },
                (Some(id), None) => forall|i: int|
                    0 <= i < prompts.len() ==> (#[trigger] prompts[i]).id@ != id@,
                (None, r) => r is None,
            }
        }),
{
    if let Some(id) = settings.post_process_selected_prompt_id {
        lemma_first_prompt(settings.post_process_prompts@, id@, 0);
    }
}

/// A job holds what the settings have for the active provider: its own id, its own model
/// and its own key, which is empty where there is none, with the selected prompt, and
/// with the transcription and the context as they were given.
pub proof fn lemma_job_holds(
    settings: &AppSettings,
    transcription: &str,
    prior_context: Option<&str>,
    job: PostProcessJob,
)
    requires
        call_ensures(
            post_process_transcription,
            (settings, transcription, prior_context),
            Some(job),
        ),
    ensures
        settings.post_process_provider is Some,
        ({
            let provider = settings.post_process_provider->0;
            &&& job.provider_id@ == provider.id@
            &&& job.supports_structured_output == provider.supports_structured_output
            &&& job.on_device <==> provider.id@ == settings.apple_intelligence_provider_id@
            &&& match table::lookup(settings.post_process_models.entries(), provider.id@) {
                Some(model) => job.model@ == model@,
                None => false,
            }
            &&& match table::lookup(settings.post_process_api_keys.entries(), provider.id@) {
                Some(api_key) => job.api_key@ == api_key@,
                None => job.api_key@.len() == 0,
            }
        }),
        post_process::selected_prompt(*settings) == Some(job.prompt@),
        job.transcription@ == transcription@,
        match (job.prior_context, prior_context) {
            (Some(kept), Some(given)) => kept@ == given@,
            (None, None) => true,
            _ => false,
        },
{
}

/// The key that a provider is sent is the one under its own id: the value of the entry
/// with that id, wherever it stands, and nothing where no entry has it.
pub proof fn lemma_own_api_key(
    settings: &AppSettings,
    transcription: &str,
    prior_context: Option<&str>,
    job: PostProcessJob,
    i: int,
)
    requires
        call_ensures(
            post_process_transcription,
            (settings, transcription, prior_context),
            Some(job),
        ),
        settings.post_process_provider is Some,
        settings.post_process_api_keys.wf(),
    ensures
        ({
            let id = settings.post_process_provider->0.id@;
            let entries = settings.post_process_api_keys.entries();
            &&& 0 <= i < entries.len() && entries[i].0 == id ==> job.api_key@ == entries[i].1@
            &&& (forall|j: int| 0 <= j < entries.len() ==> (#[trigger] entries[j]).0 != id)
                ==> job.api_key@ == Seq::<char>::empty()
        }),
{
    let id = settings.post_process_provider->0.id@;
    let entries = settings.post_process_api_keys.entries();
    lemma_job_holds(settings, transcription, prior_context, job);
    crate::laws::table::lemma_found_is_first(entries, id);
    if 0 <= i < entries.len() {
        crate::laws::table::lemma_entry_is_found(entries, i);
    }
}

/// The model that a provider is asked for is the one under its own id.
pub proof fn lemma_own_model(
    settings: &AppSettings,
    transcription: &str,
    prior_context: Option<&str>,
    job: PostProcessJob,
    i: int,
)
    requires
        call_ensures(
            post_process_transcription,
            (settings, transcription, prior_context),
            Some(job),
        ),
        settings.post_process_provider is Some,
        settings.post_process_models.wf(),
        0 <= i < settings.post_process_models.entries().len(),
        settings.post_process_models.entries()[i].0 == settings.post_process_provider->0.id@,
    ensures
        job.model@ == settings.post_process_models.entries()[i].1@,
{
    lemma_job_holds(settings, transcription, prior_context, job);
    crate::laws::table::lemma_entry_is_found(settings.post_process_models.entries(), i);
}

/// Whether a text has more than white space in it.
pub open spec fn says_something(s: Seq<char>) -> bool {
    exists|i: int| 0 <= i < s.len() && !text::is_white_space(#[trigger] s[i])
}

/// There is a job exactly where a provider is active, a model that says something is
/// under its id, and the selected prompt is there and says something.
pub proof fn lemma_job_needs(
    settings: &AppSettings,
    transcription: &str,
    prior_context: Option<&str>,
    r: Option<PostProcessJob>,
)
    requires
        call_ensures(post_process_transcription, (settings, transcription, prior_context), r),
    ensures
        r is Some <==> {
            &&& settings.post_process_provider matches Some(provider)
            &&& table::lookup(settings.post_process_models.entries(), provider.id@) matches Some(
                model,
            )
            &&& says_something(model@)
            &&& post_process::selected_prompt(*settings) matches Some(text)
            &&& says_something(text)
        },
{
    if let Some(provider) = settings.post_process_provider {
        let model = post_process::text_under(
            settings.post_process_models.entries(),
            provider.id@,
        );
        assert(text::blank(model) <==> !says_something(model));
        if let Some(text) = post_process::selected_prompt(*settings) {
            assert(text::blank(text) <==> !says_something(text));
        }
    }
}

/// Whether a job has a context to show.
pub open spec fn shows_context(job: PostProcessJob) -> bool {
    job.prior_context matches Some(context) && says_something(context@)
}

/// What the model is given of a job.
pub open spec fn given_to_model(job: PostProcessJob) -> Seq<char> {
    if shows_context(job) {
        "Previous finalized text for context:\n"@ + job.prior_context->0@
            + "\n\nCurrent chunk to clean and return:\n"@ + job.transcription@
    } else {
        job.transcription@
    }
}

/// What the model is told besides.
pub open spec fn told_besides(job: PostProcessJob) -> Seq<char> {
    if shows_context(job) {
        "\nUse the previous finalized text only for context. Return only the cleaned current chunk."@
    } else {
        ""@
    }
}

/// Whether a request goes to the provider of a job, with its key and its model, and with
/// reasoning switched off in the way that the provider takes, if it takes one.
pub open spec fn is_request_of(request: ChatRequest, job: PostProcessJob) -> bool {
    &&& request.provider_id@ == job.provider_id@
    &&& request.api_key@ == job.api_key@
    &&& request.model@ == job.model@
    &&& match request.reasoning_effort {
        Some(effort) => job.provider_id@ == "custom"@ && effort@ == "none"@,
        None => job.provider_id@ != "custom"@,
    }
    &&& match request.reasoning {
        Some(config) => {
            &&& job.provider_id@ == "openrouter"@
            &&& config.effort matches Some(effort)
            &&& effort@ == "none"@
            &&& config.exclude == Some(true)
        },
        None => job.provider_id@ != "openrouter"@,
    }
}

/// Whether a request is the one with a plain prompt: the user's prompt with what the model
/// is given in the place of the placeholder.
pub open spec fn is_prompt_request(request: ChatRequest, job: PostProcessJob) -> bool {
    &&& is_request_of(request, job)
    &&& request.system_prompt is None
    &&& request.user_content@ == text::replace(job.prompt@, "${output}"@, given_to_model(job))
        + told_besides(job)
}

proof fn lemma_context_of(job: PostProcessJob)
    ensures
        post_process::user_content(job@) == given_to_model(job),
        prompt::context_instruction(job@.prior_context) == told_besides(job),
{
    if let Some(context) = job.prior_context {
        assert(text::blank(context@) <==> !says_something(context@));
    }
}

/// What a job starts with: a provider without structured replies is sent a plain prompt;
/// the model on the device is asked, with the number that stands for its name as the
/// limit; any other provider is sent the prompt as a system prompt, and what the model is
/// given beside it.
pub proof fn lemma_first_asked(job: &PostProcessJob, action: PostProcessAction)
    requires
        call_ensures(PostProcessJob::first_action, (job,), action),
    ensures
        ({
            let system = text::trim(text::replace(job.prompt@, "${output}"@, Seq::empty()))
                + told_besides(*job);
            match action {
                PostProcessAction::Finish(_) => false,
                PostProcessAction::SendPrompt(request) => !job.supports_structured_output
                    && is_prompt_request(request, *job),
                PostProcessAction::AskOnDevice { system_prompt, user_content, token_limit } => {
                    &&& job.supports_structured_output && job.on_device
                    &&& system_prompt@ == system
                    &&& user_content@ == given_to_model(*job)
                    &&& match text::i32_value(text::trim(job.model@)) {
                        Some(limit) => token_limit == limit,
                        None => token_limit == 0,
                    }
                },
                PostProcessAction::SendStructured(request) => {
                    &&& job.supports_structured_output && !job.on_device
                    &&& is_request_of(request, *job)
                    &&& request.user_content@ == given_to_model(*job)
                    &&& request.system_prompt matches Some(system_prompt)
                    &&& system_prompt@ == system
                },
            }
        }),
{
    lemma_context_of(*job);
    reveal_strlit("");
    assert(""@ =~= Seq::<char>::empty());
}

/// What is done about a reply. From the model on the device, a text that says something is
/// kept, stripped. From a structured reply, the text that it holds is kept, stripped, or
/// all of it where it holds none; an empty one ends the job; and where the request failed,
/// the plain prompt is sent. From the reply to that, what came is kept, stripped.
pub proof fn lemma_reply_taken(
    job: &PostProcessJob,
    event: PostProcessEvent,
    action: PostProcessAction,
)
    requires
        call_ensures(PostProcessJob::next_action, (job, event), action),
    ensures
        match event {
            PostProcessEvent::OnDevice(reply) => {
                &&& action matches PostProcessAction::Finish(result)
                &&& match reply {
                    OnDeviceReply::Text(text) => if says_something(text@) {
                        result matches Some(kept) && kept@ == prompt::stripped(text@)
                    } else {
                        result is None
                    },
                    OnDeviceReply::Unavailable => result is None,
                    OnDeviceReply::Failed(_) => result is None,
                }
            },
            PostProcessEvent::Structured(Ok(Some(content))) => {
                &&& action matches PostProcessAction::Finish(result)
                &&& result matches Some(kept)
                &&& kept@ == (match post_process::json_string_member(
                    content@,
                    "transcription"@,
                ) {
                    Some(Some(value)) => prompt::stripped(value),
                    Some(None) => prompt::stripped(content@),
                    None => prompt::stripped(content@),
                })
            },
            PostProcessEvent::Structured(Ok(None)) => {
                action matches PostProcessAction::Finish(result) && result is None
            },
            PostProcessEvent::Structured(Err(_)) => {
                action matches PostProcessAction::SendPrompt(request) && is_prompt_request(
                    request,
                    *job,
                )
            },
            PostProcessEvent::Prompt(Ok(Some(content))) => {
                &&& action matches PostProcessAction::Finish(result)
                &&& result matches Some(kept)
                &&& kept@ == prompt::stripped(content@)
            },
            PostProcessEvent::Prompt(Ok(None)) => {
                action matches PostProcessAction::Finish(result) && result is None
            },
            PostProcessEvent::Prompt(Err(_)) => {
                action matches PostProcessAction::Finish(result) && result is None
            },
        },
{
    lemma_context_of(*job);
    if let PostProcessEvent::OnDevice(OnDeviceReply::Text(text)) = event {
        assert(text::blank(text@) <==> !says_something(text@));
    }
}

/// A reply that is an object with nothing but the text gives that text, stripped.
pub proof fn lemma_schema_reply_read(content: &str, value: Seq<char>, r: String)
    requires
        call_ensures(read_structured_reply, (content,), r),
        content@ == "{\"transcription\":\""@ + value + "\"}"@,
        forall|i: int|
            0 <= i < value.len() ==> #[trigger] value[i] as int >= 32 && value[i] as int != 34
                && value[i] as int != 92,
    ensures
        r@ == prompt::stripped(value),
{
    reveal_strlit("{\"transcription\":\"");
    reveal_strlit("{\"");
    reveal_strlit("transcription");
    reveal_strlit("\":\"");
    reveal_strlit("\"}");
    assert(post_process::json_plain(value));
    assert("{\"transcription\":\""@ =~= "{\""@ + "transcription"@ + "\":\""@);
    assert(content@ =~= post_process::json_object("transcription"@, value));
}

/// The text of a structured reply is that of its member where there is one, and else all
/// of the reply, stripped either way.
pub proof fn lemma_structured_text(content: &str, member: Option<String>, r: String)
    requires
        call_ensures(structured_text, (content, member), r),
    ensures
        match member {
            Some(value) => r@ == prompt::stripped(value@),
            None => r@ == prompt::stripped(content@),
        },
{
}

} // verus!
