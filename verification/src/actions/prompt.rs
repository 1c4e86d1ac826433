//! The texts that a language model is asked with, and what is made of its replies.

use crate::text;
use crate::text::{chars_of, is_blank, replace_slice, string_of, trim_slice};
use vstd::prelude::*;

verus! {

/// Whether a character shows nothing: a zero width space, non-joiner or joiner, or a
/// byte order mark.
pub open spec fn is_invisible(c: char) -> bool {
    c == '\u{200B}' || c == '\u{200C}' || c == '\u{200D}' || c == '\u{FEFF}'
}

/// Whether a character is to stay.
pub open spec fn visible() -> spec_fn(char) -> bool {
    |c: char| !is_invisible(c)
}

/// `s` without its invisible characters.
pub open spec fn stripped(s: Seq<char>) -> Seq<char> {
    s.filter(visible())
}

/// Strips the invisible characters that some models insert.
pub fn strip_invisible_chars(s: &str) -> (r: String)
    ensures
        r@ == stripped(s@),
{
    let chars = chars_of(s);
    let mut r = String::new();
    let mut i: usize = 0;
    reveal(Seq::filter);
    assert(stripped(s@.take(0)) =~= Seq::empty());
    while i < chars.len()
        invariant
            i <= chars.len(),
            chars@ == s@,
            r@ == stripped(s@.take(i as int)),
        decreases chars.len() - i,
    {
        reveal(Seq::filter);
        assert(s@.take(i + 1).drop_last() =~= s@.take(i as int));
        let c = chars[i];
        if !(c == '\u{200B}' || c == '\u{200C}' || c == '\u{200D}' || c == '\u{FEFF}') {
            r.push(c);
        }
        i += 1;
    }
    assert(s@.take(i as int) =~= s@);
    r
}

/// Stripped text holds no invisible character, and stripping it again changes
/// nothing.
pub proof fn lemma_stripped(s: Seq<char>)
    ensures
        forall|i: int| 0 <= i < stripped(s).len() ==> !is_invisible(#[trigger] stripped(s)[i]),
        stripped(stripped(s)) == stripped(s),
{
    assert forall|i: int| 0 <= i < stripped(s).len() implies !is_invisible(
        #[trigger] stripped(s)[i],
    ) by {
        s.lemma_filter_pred(visible(), i);
    }
    lemma_visible_stays(stripped(s));
}

/// Text without invisible characters stays as it is.
pub proof fn lemma_visible_stays(s: Seq<char>)
    requires
        forall|i: int| 0 <= i < s.len() ==> !is_invisible(#[trigger] s[i]),
    ensures
        stripped(s) == s,
    decreases s.len(),
{
    reveal(Seq::filter);
    if s.len() > 0 {
        assert forall|i: int| 0 <= i < s.drop_last().len() implies !is_invisible(
            #[trigger] s.drop_last()[i],
        ) by {
            assert(s.drop_last()[i] == s[i]);
        }
        lemma_visible_stays(s.drop_last());
        assert(s.drop_last().push(s.last()) =~= s);
    }
}

/// The system prompt of a template: trimmed, and without the placeholder, since the
/// transcription goes into the user message.
pub open spec fn system_prompt(template: Seq<char>) -> Seq<char> {
    text::trim(text::replace(template, "${output}"@, ""@))
}

/// Builds a system prompt from the user's prompt template.
pub fn build_system_prompt(prompt_template: &str) -> (r: String)
    ensures
        r@ == system_prompt(prompt_template@),
{
    let template = chars_of(prompt_template);
    let placeholder = chars_of("${output}");
    let nothing = chars_of("");
    proof {
        reveal_strlit("${output}");
    }
    let filled = replace_slice(template.as_slice(), placeholder.as_slice(), nothing.as_slice());
    string_of(trim_slice(filled.as_slice()))
}

/// A template without the placeholder is its own system prompt, but for white space
/// at its ends; and no system prompt starts or ends with white space.
pub proof fn lemma_system_prompt(template: Seq<char>)
    ensures
        (forall|at: int| !text::occurs_at(template, "${output}"@, at)) ==> system_prompt(template)
            == text::trim(template),
        system_prompt(template).len() > 0 ==> !text::is_white_space(system_prompt(template).first())
            && !text::is_white_space(system_prompt(template).last()),
{
    reveal_strlit("${output}");
    if forall|at: int| !text::occurs_at(template, "${output}"@, at) {
        text::lemma_replace_absent(template, "${output}"@, ""@);
    }
    text::lemma_trimmed_ends(text::replace(template, "${output}"@, ""@));
}

/// The characters of an optional string.
pub open spec fn chars(s: Option<&str>) -> Option<Seq<char>> {
    match s {
        Some(s) => Some(s@),
        None => None,
    }
}

/// Whether there is a context with more than white space in it.
pub open spec fn has_context(prior_context: Option<Seq<char>>) -> bool {
    prior_context matches Some(context) && !text::blank(context)
}

/// What the model is given: the transcription, after the text before it, where there
/// is any.
pub open spec fn context_input(
    transcription: Seq<char>,
    prior_context: Option<Seq<char>>,
) -> Seq<char> {
    if has_context(prior_context) {
        "Previous finalized text for context:\n"@ + prior_context->0
            + "\n\nCurrent chunk to clean and return:\n"@ + transcription
    } else {
        transcription
    }
}

/// Builds what the model is given.
pub fn flush_context_input(transcription: &str, prior_context: Option<&str>) -> (r: String)
    ensures
        r@ == context_input(transcription@, chars(prior_context)),
{
    match prior_context {
        Some(context) => if !is_blank(context) {
            let mut input = "Previous finalized text for context:\n".to_owned();
            input.append(context);
            input.append("\n\nCurrent chunk to clean and return:\n");
            input.append(transcription);
            input
        } else {
            transcription.to_owned()
        },
        None => transcription.to_owned(),
    }
}

/// What the model is told of the text before, where there is any.
pub open spec fn context_instruction(prior_context: Option<Seq<char>>) -> Seq<char> {
    if has_context(prior_context) {
        "\nUse the previous finalized text only for context. Return only the cleaned current chunk."@
    } else {
        ""@
    }
}

/// What the model is to be told of the text before.
pub fn flush_context_instruction(prior_context: Option<&str>) -> (r: &'static str)
    ensures
        r@ == context_instruction(chars(prior_context)),
{
    match prior_context {
        Some(context) => if !is_blank(context) {
            "\nUse the previous finalized text only for context. Return only the cleaned current chunk."
        } else {
            ""
        },
        None => "",
    }
}

} // verus!
