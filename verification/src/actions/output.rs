//! What becomes of a transcription: converted between Chinese scripts,
//! post-processed, and put together for the history and for insertion.

use super::post_process;
use super::post_process::{find_selected_prompt, post_process_transcription, PostProcessJob};
use super::prompt;
use crate::settings::{AppSettings, FlushPostProcessContext};
use crate::text;
use crate::text::{is_blank, same_str};
use ferrous_opencc::config::BuiltinConfig;
use ferrous_opencc::error::OpenCCError;
use ferrous_opencc::OpenCC;
use vstd::prelude::*;

verus! {

/// The error of setting up a conversion.
#[verifier::external_type_specification]
#[verifier::external_body]
pub struct ExOpenCCError(OpenCCError);

/// What converting `text` gives under the built-in configuration of a file name.
pub uninterp spec fn opencc_converted(config: Seq<char>, text: Seq<char>) -> Seq<char>;

/// `OpenCC::from_config`, for the configuration that `BuiltinConfig::from_filename`
/// finds, and then `OpenCC::convert`. The contract names the converted text for the
/// configuration and the text. It does not say that the conversion can be set up:
/// that rests on how the allocator aligns the embedded dictionaries.
#[verifier::external_body]
fn opencc_convert(config: &str, text: &str) -> (r: Result<String, OpenCCError>)
    ensures
        r matches Ok(converted) ==> converted@ == opencc_converted(config@, text@),
{
    let config = BuiltinConfig::from_filename(config)?;
    let converter = OpenCC::from_config(config)?;
    Ok(converter.convert(text))
}

/// Whether a conversion of `text` under the configuration of a file name came to
/// `result` when it was run.
pub closed spec fn conversion_ran(
    config: &str,
    text: &str,
    result: Result<String, OpenCCError>,
) -> bool {
    call_ensures(opencc_convert, (config, text), result)
}

/// The configuration that converts to the script of a language: from Taiwan's
/// traditional to simplified characters, with the vocabulary, or the other way,
/// without.
pub open spec fn script_config(language: Seq<char>) -> Option<Seq<char>> {
    if language == "zh-Hans"@ {
        Some("tw2sp.json"@)
    } else if language == "zh-Hant"@ {
        Some("s2tw.json"@)
    } else {
        None
    }
}

/// Finds the configuration that converts to the script of a language.
pub fn chinese_script_config(language: &str) -> (r: Option<&'static str>)
    ensures
        prompt::chars(r) == script_config(language@),
{
    if same_str(language, "zh-Hans") {
        Some("tw2sp.json")
    } else if same_str(language, "zh-Hant") {
        Some("s2tw.json")
    } else {
        None
    }
}

/// Whether `converted` can come of converting a transcription: nothing where the
/// language has no script of its own, else nothing or the converted text.
pub open spec fn is_conversion(
    language: Seq<char>,
    transcription: Seq<char>,
    converted: Option<Seq<char>>,
) -> bool {
    match converted {
        Some(text) => script_config(language) matches Some(config) && text == opencc_converted(
            config,
            transcription,
        ),
        None => true,
    }
}

/// What is kept of a conversion: the converted text, where it could be set up.
pub open spec fn kept(result: Result<String, OpenCCError>) -> Option<String> {
    match result {
        Ok(converted) => Some(converted),
        Err(_) => None,
    }
}

/// Whether `converted` is what is kept of converting a transcription: nothing where the
/// language has no script of its own, else what a conversion under its configuration
/// came to when it was run.
pub open spec fn kept_of_conversion(
    language: Seq<char>,
    transcription: &str,
    converted: Option<String>,
) -> bool {
    match script_config(language) {
        Some(name) => exists|config: &str, result: Result<String, OpenCCError>|
            config@ == name && #[trigger] conversion_ran(config, transcription, result) && converted
                == kept(result),
        None => converted is None,
    }
}

/// Keeps a converted text, and passes over a conversion that could not be set up.
pub fn keep_converted(result: Result<String, OpenCCError>) -> (r: Option<String>)
    ensures
        r == kept(result),
{
    match result {
        Ok(converted) => Some(converted),
        Err(_) => None,
    }
}

/// Converts a transcription to the Chinese script of the selected language, if it has
/// one and the conversion can be set up.
pub fn maybe_convert_chinese_variant(settings: &AppSettings, transcription: &str) -> (r: Option<
    String,
>)
    ensures
        kept_of_conversion(settings.selected_language@, transcription, r),
        is_conversion(
            settings.selected_language@,
            transcription@,
            post_process::owned_chars(r),
        ),
{
    match chinese_script_config(settings.selected_language.as_str()) {
        Some(config) => {
            let result = opencc_convert(config, transcription);
            assert(conversion_ran(config, transcription, result));
            keep_converted(result)
        },
        None => None,
    }
}

/// The text before a chunk that the model is shown: all of it where the settings ask
/// for the whole session, and where it is more than white space.
pub open spec fn shown_context(
    setting: FlushPostProcessContext,
    prior_context: Seq<char>,
) -> Option<Seq<char>> {
    if setting == FlushPostProcessContext::FullSession && !text::blank(prior_context) {
        Some(prior_context)
    } else {
        None
    }
}

/// Picks the text before a chunk that the model is shown.
pub fn llm_context<'a>(setting: FlushPostProcessContext, prior_context: &'a str) -> (r: Option<
    &'a str,
>)
    ensures
        prompt::chars(r) == shown_context(setting, prior_context@),
{
    match setting {
        FlushPostProcessContext::FullSession => if !is_blank(prior_context) {
            Some(prior_context)
        } else {
            None
        },
        FlushPostProcessContext::ChunkOnly => None,
    }
}

/// The text to go on with: the converted one, where there is one.
pub open spec fn converted_text(transcription: Seq<char>, converted: Option<Seq<char>>) -> Seq<
    char,
> {
    match converted {
        Some(text) => text,
        None => transcription,
    }
}

/// What is done with a transcription before its output is put together.
#[derive(Debug)]
pub struct OutputPlan {
    pub converted: Option<String>,
    pub job: Option<PostProcessJob>,
}

/// The job of a transcription, where one is asked for.
pub open spec fn planned_job(
    settings: AppSettings,
    text: Seq<char>,
    post_process: bool,
    context: Option<Seq<char>>,
) -> Option<post_process::JobModel> {
    if post_process {
        post_process::job_of(settings, text, context)
    } else {
        None
    }
}

/// The model of an optional job.
pub open spec fn job_model(job: Option<PostProcessJob>) -> Option<post_process::JobModel> {
    match job {
        Some(job) => Some(job@),
        None => None,
    }
}

/// Plans the output of a transcription from its conversion.
pub fn plan_output(
    settings: &AppSettings,
    transcription: &str,
    converted: Option<String>,
    post_process: bool,
    context: Option<&str>,
) -> (r: OutputPlan)
    ensures
        r.converted == converted,
        job_model(r.job) == planned_job(
            *settings,
            converted_text(transcription@, post_process::owned_chars(converted)),
            post_process,
            prompt::chars(context),
        ),
{
    let job = if post_process {
        match &converted {
            Some(text) => post_process_transcription(settings, text.as_str(), context),
            None => post_process_transcription(settings, transcription, context),
        }
    } else {
        None
    };
    OutputPlan { converted, job }
}

/// Plans the output of a whole recording.
pub fn process_transcription_output(
    settings: &AppSettings,
    transcription: &str,
    post_process: bool,
) -> (r: OutputPlan)
    ensures
        kept_of_conversion(settings.selected_language@, transcription, r.converted),
        is_conversion(
            settings.selected_language@,
            transcription@,
            post_process::owned_chars(r.converted),
        ),
        job_model(r.job) == planned_job(
            *settings,
            converted_text(transcription@, post_process::owned_chars(r.converted)),
            post_process,
            None,
        ),
{
    let converted = maybe_convert_chinese_variant(settings, transcription);
    plan_output(settings, transcription, converted, post_process, None)
}

/// Plans the output of a chunk of a recording, after the text of the chunks before.
pub fn process_flush_transcription_output(
    settings: &AppSettings,
    transcription: &str,
    post_process: bool,
    prior_context: &str,
) -> (r: OutputPlan)
    ensures
        kept_of_conversion(settings.selected_language@, transcription, r.converted),
        is_conversion(
            settings.selected_language@,
            transcription@,
            post_process::owned_chars(r.converted),
        ),
        job_model(r.job) == planned_job(
            *settings,
            converted_text(transcription@, post_process::owned_chars(r.converted)),
            post_process,
            shown_context(settings.flush_post_process_context, prior_context@),
        ),
{
    let converted = maybe_convert_chinese_variant(settings, transcription);
    let context = llm_context(settings.flush_post_process_context, prior_context);
    plan_output(settings, transcription, converted, post_process, context)
}

/// The output of a transcription.
pub struct OutputModel {
    pub final_text: Seq<char>,
    pub post_processed_text: Option<Seq<char>>,
    pub post_process_prompt: Option<Seq<char>>,
}

/// The output of a transcription: the post-processed text, with the prompt that it
/// was made with, where post-processing was asked for and gave one; else the
/// converted text, noted as processed where it differs and no post-processing was
/// asked for.
pub open spec fn output_of(
    settings: AppSettings,
    transcription: Seq<char>,
    converted: Option<Seq<char>>,
    post_process: bool,
    processed: Option<Seq<char>>,
) -> OutputModel {
    let text = converted_text(transcription, converted);
    if post_process {
        match processed {
            Some(processed_text) => OutputModel {
                final_text: processed_text,
                post_processed_text: Some(processed_text),
                post_process_prompt: post_process::selected_prompt(settings),
            },
            None => OutputModel {
                final_text: text,
                post_processed_text: None,
                post_process_prompt: None,
            },
        }
    } else {
        OutputModel {
            final_text: text,
            post_processed_text: if text != transcription {
                Some(text)
            } else {
                None
            },
            post_process_prompt: None,
        }
    }
}

/// A transcription as it goes into the history and is inserted.
#[derive(Debug)]
pub struct ProcessedTranscription {
    pub final_text: String,
    pub post_processed_text: Option<String>,
    pub post_process_prompt: Option<String>,
}

impl View for ProcessedTranscription {
    type V = OutputModel;

    open spec fn view(&self) -> OutputModel {
        OutputModel {
            final_text: self.final_text@,
            post_processed_text: post_process::owned_chars(self.post_processed_text),
            post_process_prompt: post_process::owned_chars(self.post_process_prompt),
        }
    }
}

/// Puts together the output of a transcription.
pub fn finish_output(
    settings: &AppSettings,
    transcription: &str,
    converted: Option<String>,
    post_process: bool,
    processed: Option<String>,
) -> (r: ProcessedTranscription)
    ensures
        r@ == output_of(
            *settings,
            transcription@,
            post_process::owned_chars(converted),
            post_process,
            post_process::owned_chars(processed),
        ),
{
    let text = match converted {
        Some(text) => text,
        None => transcription.to_owned(),
    };
    if post_process {
        match processed {
            Some(processed_text) => ProcessedTranscription {
                final_text: processed_text.clone(),
                post_processed_text: Some(processed_text),
                post_process_prompt: find_selected_prompt(settings),
            },
            None => ProcessedTranscription {
                final_text: text,
                post_processed_text: None,
                post_process_prompt: None,
            },
        }
    } else {
        let post_processed_text = if !same_str(text.as_str(), transcription) {
            Some(text.clone())
        } else {
            None
        };
        ProcessedTranscription { final_text: text, post_processed_text, post_process_prompt: None }
    }
}

/// A text that is noted as processed is the one that is inserted, and a prompt is
/// noted only beside such a text. Where none is noted, what is inserted is the
/// transcription, unless post-processing failed on a converted one.
pub proof fn lemma_output(
    settings: AppSettings,
    transcription: Seq<char>,
    converted: Option<Seq<char>>,
    post_process: bool,
    processed: Option<Seq<char>>,
)
    ensures
        ({
            let output = output_of(settings, transcription, converted, post_process, processed);
            &&& output.post_processed_text matches Some(text) ==> output.final_text == text
            &&& output.post_process_prompt is Some ==> output.post_processed_text is Some
            &&& output.post_processed_text is None ==> output.final_text == transcription || (
            post_process && processed is None && converted == Some(output.final_text))
        }),
{
}

} // verus!
