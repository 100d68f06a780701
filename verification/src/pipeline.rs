//! The steps from a recording to a delivered text: which transcripts skip the
//! language model, what is asked of it, and how the result is delivered.

use vstd::prelude::*;
use crate::asr::AsrOutput;
use crate::config::AppConfig;
use crate::deepseek::{
    context_section, full_prompt_spec, repair_request, split_prompt_spec, ChatMessages,
    RepairError,
};
use crate::delivery::{self, get_cursor_context, is_empty_context, ClipboardHistory, CursorContext, Delivery};
use crate::hotkey::UserCorrection;
use crate::pinyin_hint::{build_pinyin_hint, pinyin_hint_spec};
use crate::text::{chars_of, is_space, is_space_spec, to_owned, trim, trim_spec};

verus! {

/// A recording waiting to be processed.
#[derive(Clone, Debug)]
pub struct PipelineInput {
    pub wav_path: String,
}

/// A character of the CJK Unified Ideographs blocks (with extension A, the
/// compatibility block, and extensions B to F).
pub open spec fn is_cjk_spec(c: char) -> bool {
    let u = c as u32;
    ||| 0x3400 <= u <= 0x4DBF
    ||| 0x4E00 <= u <= 0x9FFF
    ||| 0xF900 <= u <= 0xFAFF
    ||| 0x20000 <= u <= 0x2EBEF
}

/// Whether `ch` is a CJK unified ideograph.
pub fn is_cjk_unified_ideograph(ch: char) -> (r: bool)
    ensures
        r == is_cjk_spec(ch),
{
    let u = ch as u32;
    (0x3400 <= u && u <= 0x4DBF) || (0x4E00 <= u && u <= 0x9FFF) || (0xF900 <= u && u <= 0xFAFF)
        || (0x20000 <= u && u <= 0x2EBEF)
}

/// A character that counts toward a transcript's length: neither whitespace nor
/// one of `, . ! ? ; :`.
pub open spec fn counts_toward_length(c: char) -> bool {
    !is_space_spec(c) && !(c == ',' || c == '.' || c == '!' || c == '?' || c == ';' || c == ':')
}

/// The number of characters of `s` that count toward its length.
pub open spec fn effective_len(s: Seq<char>) -> nat
    decreases s.len(),
{
    if s.len() == 0 {
        0
    } else {
        effective_len(s.drop_last()) + if counts_toward_length(s.last()) {
            1nat
        } else {
            0nat
        }
    }
}

/// A transcript is passed on unrepaired when it has at most three characters that
/// count toward its length.
pub open spec fn skip_llm_spec(s: Seq<char>) -> bool {
    effective_len(s) <= 3
}

/// Whether the language model is skipped for `text`.
pub fn should_skip_llm(text: &str) -> (r: bool)
    ensures
        r == skip_llm_spec(text@),
{
    let v = chars_of(text);
    let mut effective: usize = 0;
    for i in 0..v.len()
        invariant
            v@ == text@,
            effective == effective_len(v@.take(i as int)),
            effective <= i,
    {
        assert(v@.take(i + 1).drop_last() =~= v@.take(i as int));
        assert(v@.take(i + 1).last() == v@[i as int]);
        let c = v[i];
        if !is_space(c) && !(c == ',' || c == '.' || c == '!' || c == '?' || c == ';' || c == ':') {
            effective = effective + 1;
        }
    }
    assert(v@.take(v.len() as int) =~= v@);
    effective <= 3
}

/// What repairing a transcript needs next.
pub enum RepairOutcome {
    /// The final text is known without the language model.
    Ready(String),
    /// The language model has to be asked with these messages.
    AskModel(ChatMessages),
}

/// The pinyin hint of a transcript and how its repair goes on.
pub struct RepairPlan {
    pub pinyin_hint: String,
    pub outcome: RepairOutcome,
}

proof fn lemma_empty_context_section(c: CursorContext)
    requires
        is_empty_context(c),
    ensures
        context_section(c) == Seq::<char>::empty(),
{
}

/// Plans the repair of `transcript`: the pinyin hint, and either the trimmed
/// transcript (when the model is skipped) or the messages for the model, built
/// with an empty cursor context. Without an API key the model cannot be asked.
pub fn repair_text(
    config: &AppConfig,
    transcript: &AsrOutput,
    dissatisfaction: bool,
    corrections: &[UserCorrection],
) -> (r: Result<RepairPlan, RepairError>)
    ensures
        skip_llm_spec(transcript.text@) ==> match r {
            Ok(plan) => plan.pinyin_hint@ == pinyin_hint_spec(transcript.text@) && match plan.outcome {
                RepairOutcome::Ready(t) => t@ == trim_spec(transcript.text@),
                RepairOutcome::AskModel(_) => false,
            },
            Err(_) => false,
        },
        !skip_llm_spec(transcript.text@) && trim_spec(config.deepseek_api_key@).len() == 0 ==> r
            matches Err(RepairError::MissingApiKey),
        !skip_llm_spec(transcript.text@) && trim_spec(config.deepseek_api_key@).len() != 0 ==> match r {
            Ok(plan) => plan.pinyin_hint@ == pinyin_hint_spec(transcript.text@) && match plan.outcome {
                RepairOutcome::AskModel(m) => forall|c: CursorContext|
                    is_empty_context(c) ==> (m.system@, m.user@) == split_prompt_spec(
                        full_prompt_spec(
                            config.prompt_style,
                            *transcript,
                            pinyin_hint_spec(transcript.text@),
                            c,
                            dissatisfaction,
                            corrections@,
                        ),
                    ),
                RepairOutcome::Ready(_) => false,
            },
            Err(_) => false,
        },
{
    let pinyin_hint = build_pinyin_hint(transcript.text.as_str());
    let cursor_context = match get_cursor_context() {
        Some(c) => c,
        None => CursorContext::default(),
    };
    if should_skip_llm(transcript.text.as_str()) {
        let final_text = to_owned(trim(transcript.text.as_str()));
        return Ok(RepairPlan { pinyin_hint, outcome: RepairOutcome::Ready(final_text) });
    }
    proof {
        lemma_empty_context_section(cursor_context);
    }
    let messages = repair_request(
        config,
        transcript,
        pinyin_hint.as_str(),
        &cursor_context,
        dissatisfaction,
        corrections,
    )?;
    proof {
        assert forall|c: CursorContext| is_empty_context(c) implies (messages.system@, messages.user@)
            == split_prompt_spec(
            full_prompt_spec(
                config.prompt_style,
                *transcript,
                pinyin_hint_spec(transcript.text@),
                c,
                dissatisfaction,
                corrections@,
            ),
        ) by {
            lemma_empty_context_section(c);
            assert(full_prompt_spec(
                config.prompt_style,
                *transcript,
                pinyin_hint_spec(transcript.text@),
                c,
                dissatisfaction,
                corrections@,
            ) =~= full_prompt_spec(
                config.prompt_style,
                *transcript,
                pinyin_hint_spec(transcript.text@),
                cursor_context,
                dissatisfaction,
                corrections@,
            ));
        }
    }
    Ok(RepairPlan { pinyin_hint, outcome: RepairOutcome::AskModel(messages) })
}

/// Completes a planned repair with the text that came back, either the plan's
/// own ready text or the model's answer: the plan's pinyin hint with that text,
/// or the failure of asking the model, passed on unchanged.
pub fn finish_repair<E>(pinyin_hint: String, text: Result<String, E>) -> (r: Result<
    (String, String),
    E,
>)
    ensures
        r == match text {
            Ok(t) => Ok::<(String, String), E>((pinyin_hint, t)),
            Err(e) => Err::<(String, String), E>(e),
        },
{
    match text {
        Ok(t) => Ok((pinyin_hint, t)),
        Err(e) => Err(e),
    }
}

/// Starts delivering the final text the way the settings ask for.
pub fn deliver_text(config: &AppConfig, history: &mut ClipboardHistory, final_text: &str, now: u64) -> (r: Delivery)
    requires
        old(history).wf(),
    ensures
        final(history).wf(),
        final(history)@ == delivery::recorded(old(history)@, final_text@, now),
        r.text@ == final_text@,
        r.auto_paste == config.auto_paste,
        r.step == delivery::DeliveryStep::OpenClipboard,
        r.outcome is None,
{
    delivery::deliver_text(history, final_text, config.auto_paste, now)
}

/// `, . ! ? ; :` and whitespace never count toward a transcript's length:
/// writing one of them after a text leaves the decision to skip the model as it
/// was.
pub proof fn law_punctuation_and_spaces_do_not_count(s: Seq<char>, c: char)
    requires
        c == ',' || c == '.' || c == '!' || c == '?' || c == ';' || c == ':' || is_space_spec(c),
    ensures
        skip_llm_spec(s.push(c)) == skip_llm_spec(s),
{
    assert(s.push(c).drop_last() =~= s);
}

/// Any other character counts once: a text made only of such characters skips
/// the model exactly when it has at most three of them.
pub proof fn law_other_characters_count(s: Seq<char>)
    requires
        forall|i: int|
            0 <= i < s.len() ==> !is_space_spec(#[trigger] s[i]) && s[i] != ',' && s[i] != '.'
                && s[i] != '!' && s[i] != '?' && s[i] != ';' && s[i] != ':',
    ensures
        skip_llm_spec(s) == (s.len() <= 3),
{
    lemma_effective_len_counts_all(s);
}

proof fn lemma_effective_len_counts_all(s: Seq<char>)
    requires
        forall|i: int|
            0 <= i < s.len() ==> !is_space_spec(#[trigger] s[i]) && s[i] != ',' && s[i] != '.'
                && s[i] != '!' && s[i] != '?' && s[i] != ';' && s[i] != ':',
    ensures
        effective_len(s) == s.len(),
    decreases s.len(),
{
    if s.len() > 0 {
        let init = s.drop_last();
        assert forall|i: int| 0 <= i < init.len() implies !is_space_spec(#[trigger] init[i])
            && init[i] != ',' && init[i] != '.' && init[i] != '!' && init[i] != '?' && init[i]
            != ';' && init[i] != ':' by {
            assert(init[i] == s[i]);
        }
        lemma_effective_len_counts_all(init);
        assert(!is_space_spec(s[s.len() - 1]));
    }
}

/// A transcript of at most three characters always skips the model.
pub proof fn law_short_transcripts_skip(s: Seq<char>)
    requires
        s.len() <= 3,
    ensures
        skip_llm_spec(s),
{
    lemma_effective_len_at_most_len(s);
}

proof fn lemma_effective_len_at_most_len(s: Seq<char>)
    ensures
        effective_len(s) <= s.len(),
    decreases s.len(),
{
    if s.len() > 0 {
        lemma_effective_len_at_most_len(s.drop_last());
    }
}

} // verus!
