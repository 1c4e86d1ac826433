//! Output: what a transcription is converted to, and what is kept and inserted of it.

use crate::actions::output;
use crate::actions::output::{
    chinese_script_config, finish_output, keep_converted, llm_context,
    maybe_convert_chinese_variant, plan_output, process_flush_transcription_output,
    process_transcription_output, OutputPlan, ProcessedTranscription,
};
use crate::actions::post_process;
use crate::actions::post_process::PostProcessJob;
use crate::actions::prompt;
use crate::settings::{AppSettings, FlushPostProcessContext};
use crate::text;
use ferrous_opencc::error::OpenCCError;
use vstd::prelude::*;

verus! {

/// Only the two Chinese scripts are converted to: simplified characters from Taiwan's
/// traditional ones with the vocabulary, and traditional ones of Taiwan from simplified
/// ones.
pub proof fn lemma_scripts(language: &str, r: Option<&'static str>)
    requires
        call_ensures(chinese_script_config, (language,), r),
    ensures
        match r {
            Some(config) => {
                ||| language@ == "zh-Hans"@ && config@ == "tw2sp.json"@
                ||| language@ == "zh-Hant"@ && config@ == "s2tw.json"@
            },
            None => language@ != "zh-Hans"@ && language@ != "zh-Hant"@,
        },
{
    reveal_strlit("zh-Hans");
    reveal_strlit("zh-Hant");
    assert("zh-Hans"@[6] != "zh-Hant"@[6]);
}

/// A conversion that was made is kept, and one that was not is passed over.
pub proof fn lemma_conversion_kept(result: Result<String, OpenCCError>, r: Option<String>)
    requires
        call_ensures(keep_converted, (result,), r),
    ensures
        match (result, r) {
            (Ok(converted), Some(kept)) => kept == converted,
            (Err(_), None) => true,
            _ => false,
        },
{
}

/// What is made of converting a transcription, where anything is, is the whole
/// transcription converted to the script of the selected language.
pub proof fn lemma_converted_to_script(
    settings: &AppSettings,
    transcription: &str,
    r: Option<String>,
)
    requires
        call_ensures(maybe_convert_chinese_variant, (settings, transcription), r),
    ensures
        r matches Some(converted) ==> {
            ||| settings.selected_language@ == "zh-Hans"@ && converted@
                == output::opencc_converted("tw2sp.json"@, transcription@)
            ||| settings.selected_language@ == "zh-Hant"@ && converted@
                == output::opencc_converted("s2tw.json"@, transcription@)
        },
{
}

/// The model is shown the text before a chunk where the settings ask for the whole session
/// and that text has more than white space in it; it is then shown all of it.
pub proof fn lemma_context_picked(
    setting: FlushPostProcessContext,
    prior_context: &str,
    r: Option<&str>,
)
    requires
        call_ensures(llm_context, (setting, prior_context), r),
    ensures
        r matches Some(context) ==> context@ == prior_context@,
        r is Some <==> setting is FullSession && exists|i: int|
            0 <= i < prior_context@.len() && !text::is_white_space(#[trigger] prior_context@[i]),
{
}

/// Whether a job is the one that the settings make of a text and a context.
pub open spec fn is_job_for(
    job: Option<PostProcessJob>,
    settings: AppSettings,
    text: Seq<char>,
    context: Option<Seq<char>>,
) -> bool {
    match job {
        Some(job) => post_process::job_of(settings, text, context) == Some(job@),
        None => post_process::job_of(settings, text, context) is None,
    }
}

/// The text of a conversion, or the transcription where there is none.
pub open spec fn converted_or(transcription: Seq<char>, converted: Option<String>) -> Seq<char> {
    match converted {
        Some(text) => text@,
        None => transcription,
    }
}

/// A plan keeps the conversion, and post-processes the converted text exactly where that
/// is asked for.
pub proof fn lemma_plan(
    settings: &AppSettings,
    transcription: &str,
    converted: Option<String>,
    post_process: bool,
    context: Option<&str>,
    plan: OutputPlan,
)
    requires
        call_ensures(
            plan_output,
            (settings, transcription, converted, post_process, context),
            plan,
        ),
    ensures
        plan.converted == converted,
        !post_process ==> plan.job is None,
        post_process ==> is_job_for(
            plan.job,
            *settings,
            converted_or(transcription@, converted),
            match context {
                Some(context) => Some(context@),
                None => None,
            },
        ),
{
}

/// A whole recording is post-processed without a context.
pub proof fn lemma_recording_planned(
    settings: &AppSettings,
    transcription: &str,
    post_process: bool,
    plan: OutputPlan,
)
    requires
        call_ensures(process_transcription_output, (settings, transcription, post_process), plan),
    ensures
        !post_process ==> plan.job is None,
        post_process ==> is_job_for(
            plan.job,
            *settings,
            converted_or(transcription@, plan.converted),
            None,
        ),
        plan.converted is Some ==> settings.selected_language@ == "zh-Hans"@
            || settings.selected_language@ == "zh-Hant"@,
{
}

/// A chunk is post-processed after the text before it, where the settings ask for the
/// whole session and that text has more than white space in it.
pub proof fn lemma_chunk_planned(
    settings: &AppSettings,
    transcription: &str,
    post_process: bool,
    prior_context: &str,
    plan: OutputPlan,
)
    requires
        call_ensures(
            process_flush_transcription_output,
            (settings, transcription, post_process, prior_context),
            plan,
        ),
    ensures
        !post_process ==> plan.job is None,
        post_process ==> is_job_for(
            plan.job,
            *settings,
            converted_or(transcription@, plan.converted),
            if settings.flush_post_process_context is FullSession && exists|i: int|
                0 <= i < prior_context@.len() && !text::is_white_space(
                    #[trigger] prior_context@[i],
                ) {
                Some(prior_context@)
            } else {
                None
            },
        ),
        plan.converted is Some ==> settings.selected_language@ == "zh-Hans"@
            || settings.selected_language@ == "zh-Hant"@,
{
}

/// The output of a transcription. Where post-processing was asked for and gave a text, that
/// text is inserted, and kept with the selected prompt. Else the converted text is
/// inserted, or the transcription where nothing was converted; it is kept as processed
/// where no post-processing was asked for and it is not the transcription.
pub proof fn lemma_output_put_together(
    settings: &AppSettings,
    transcription: &str,
    converted: Option<String>,
    post_process: bool,
    processed: Option<String>,
    r: ProcessedTranscription,
)
    requires
        call_ensures(
            finish_output,
            (settings, transcription, converted, post_process, processed),
            r,
        ),
    ensures
        match processed {
            Some(text) => if post_process {
                &&& r.final_text@ == text@
                &&& r.post_processed_text matches Some(kept)
                &&& kept@ == text@
                &&& match r.post_process_prompt {
                    Some(used) => post_process::selected_prompt(*settings) == Some(used@),
                    None => post_process::selected_prompt(*settings) is None,
                }
            } else {
                r.final_text@ == converted_or(transcription@, converted)
            },
            None => r.final_text@ == converted_or(transcription@, converted),
        },
        !post_process || processed is None ==> r.post_process_prompt is None,
        !post_process ==> match r.post_processed_text {
            Some(kept) => kept@ == r.final_text@ && r.final_text@ != transcription@,
            None => r.final_text@ == transcription@,
        },
        post_process && processed is None ==> r.post_processed_text is None,
{
}

/// What is kept of converting a transcription comes of a conversion that ran, on this
/// transcription and to the script of the language: its text where there is one, and
/// nothing where it could not be set up. For any other language nothing is kept.
pub proof fn lemma_kept_comes_of_run(
    language: Seq<char>,
    transcription: &str,
    converted: Option<String>,
)
    requires
        output::kept_of_conversion(language, transcription, converted),
    ensures
        if language == "zh-Hans"@ || language == "zh-Hant"@ {
            exists|config: &str, result: Result<String, OpenCCError>|
                {
                    &&& #[trigger] output::conversion_ran(config, transcription, result)
                    &&& language == "zh-Hans"@ ==> config@ == "tw2sp.json"@
                    &&& language == "zh-Hant"@ ==> config@ == "s2tw.json"@
                    &&& match result {
                        Ok(text) => converted == Some(text),
                        Err(_) => converted is None,
                    }
                }
        } else {
            converted is None
        },
{
    reveal_strlit("zh-Hans");
    reveal_strlit("zh-Hant");
    assert("zh-Hans"@[6] != "zh-Hant"@[6]);
    if let Some(name) = output::script_config(language) {
        let (config, result) = choose|config: &str, result: Result<String, OpenCCError>|
            config@ == name && #[trigger] output::conversion_ran(config, transcription, result)
                && converted == output::kept(result);
        assert(output::conversion_ran(config, transcription, result));
    }
}

/// Every output starts with what is kept of converting the transcription.
pub proof fn lemma_conversion_comes_first(
    settings: &AppSettings,
    transcription: &str,
    post_process: bool,
    prior_context: &str,
    kept: Option<String>,
    whole: OutputPlan,
    chunk: OutputPlan,
)
    requires
        call_ensures(maybe_convert_chinese_variant, (settings, transcription), kept),
        call_ensures(process_transcription_output, (settings, transcription, post_process), whole),
        call_ensures(
            process_flush_transcription_output,
            (settings, transcription, post_process, prior_context),
            chunk,
        ),
    ensures
        output::kept_of_conversion(settings.selected_language@, transcription, kept),
        output::kept_of_conversion(settings.selected_language@, transcription, whole.converted),
        output::kept_of_conversion(settings.selected_language@, transcription, chunk.converted),
{
}

} // verus!
