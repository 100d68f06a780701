//! The prompt that asks the language model to repair a transcript, and the reading
//! of its reply.

use vstd::prelude::*;
use crate::asr::{AsrOutput, AsrSegment};
use crate::config::{AppConfig, PromptStyle};
use crate::delivery::CursorContext;
use crate::hotkey::UserCorrection;
use crate::text::{
    chars_of, decimal_spec, find, find_from, join_spec, join_strings, occurs_at, push_char,
    push_decimal, push_str, string_from_chars, sub_chars, to_owned, trim, trim_spec,
    lemma_find_from,
};

verus! {

/// The model that repairs transcripts.
pub const DEEPSEEK_MODEL: &'static str = "deepseek-v4-flash";

/// The chat-completion endpoint the repair request is sent to.
pub const DEEPSEEK_CHAT_URL: &'static str = "https://api.deepseek.com/chat/completions";

/// The reply is asked for whole, not streamed.
pub const DEEPSEEK_STREAM: bool = false;

/// How many earlier corrections the system prompt quotes.
pub const SYSTEM_CORRECTIONS_SHOWN: usize = 3;

/// How many earlier corrections the user prompt quotes.
pub const USER_CORRECTIONS_SHOWN: usize = 5;

/// The sentences of the system prompt for each style.
pub open spec fn style_sentences(style: PromptStyle) -> Seq<Seq<char>> {
    match style {
        PromptStyle::Default => seq![
            "你负责修复中文语音转写结果。"@,
            "请结合原始转写和拼音提示，修正同音字、缺字、错字、标点和断句问题。"@,
            "删除明显的口头禅、重复、自我修正和转写噪声。"@,
            "保持原意，不要编造事实。"@,
            "无论输入是简体还是繁体，最终输出必须统一为简体中文。"@,
            "只返回最终可直接粘贴的文本，不要解释。"@,
        ],
        PromptStyle::Concise => seq![
            "你负责修复中文语音转写结果。"@,
            "修正同音字、缺字、错字、标点问题。"@,
            "删除口头禅、重复和噪声。"@,
            "保持简洁，不要扩展内容。"@,
            "只返回最终可直接粘贴的文本。"@,
        ],
        PromptStyle::Formal => seq![
            "你负责将中文语音转写结果整理为正式文本。"@,
            "修正所有文字错误、标点和断句。"@,
            "删除口语化表达、重复和口头禅。"@,
            "将内容整理为流畅的正式书面语。"@,
            "保持原意，不添加内容。"@,
            "只返回最终可直接粘贴的文本。"@,
        ],
        PromptStyle::Creative => seq![
            "你负责润色中文语音转写结果。"@,
            "在保持原意的基础上，让文字更加生动流畅。"@,
            "修正同音字、错字和标点。"@,
            "适当优化表达，使其更具表现力。"@,
            "只返回最终可直接粘贴的文本。"@,
        ],
    }
}

fn style_sentence_list(style: PromptStyle) -> (r: Vec<String>)
    ensures
        r@.map_values(|p: String| p@) == style_sentences(style),
{
    let r = match style {
        PromptStyle::Default => vec![
            to_owned("你负责修复中文语音转写结果。"),
            to_owned("请结合原始转写和拼音提示，修正同音字、缺字、错字、标点和断句问题。"),
            to_owned("删除明显的口头禅、重复、自我修正和转写噪声。"),
            to_owned("保持原意，不要编造事实。"),
            to_owned("无论输入是简体还是繁体，最终输出必须统一为简体中文。"),
            to_owned("只返回最终可直接粘贴的文本，不要解释。"),
        ],
        PromptStyle::Concise => vec![
            to_owned("你负责修复中文语音转写结果。"),
            to_owned("修正同音字、缺字、错字、标点问题。"),
            to_owned("删除口头禅、重复和噪声。"),
            to_owned("保持简洁，不要扩展内容。"),
            to_owned("只返回最终可直接粘贴的文本。"),
        ],
        PromptStyle::Formal => vec![
            to_owned("你负责将中文语音转写结果整理为正式文本。"),
            to_owned("修正所有文字错误、标点和断句。"),
            to_owned("删除口语化表达、重复和口头禅。"),
            to_owned("将内容整理为流畅的正式书面语。"),
            to_owned("保持原意，不添加内容。"),
            to_owned("只返回最终可直接粘贴的文本。"),
        ],
        PromptStyle::Creative => vec![
            to_owned("你负责润色中文语音转写结果。"),
            to_owned("在保持原意的基础上，让文字更加生动流畅。"),
            to_owned("修正同音字、错字和标点。"),
            to_owned("适当优化表达，使其更具表现力。"),
            to_owned("只返回最终可直接粘贴的文本。"),
        ],
    };
    assert(r@.map_values(|p: String| p@) =~= style_sentences(style));
    r
}

/// The smaller of `n` and `cap`.
pub open spec fn at_most(n: int, cap: int) -> int {
    if n < cap {
        n
    } else {
        cap
    }
}

/// How the system prompt quotes a correction.
pub open spec fn system_correction_line(c: UserCorrection) -> Seq<char> {
    "原文「"@ + c.original@ + "」→ 用户修改为「"@ + c.final_text@ + "」"@
}

/// The system prompt: the style's sentences, then up to three earlier corrections,
/// then a warning when the user seemed unhappy with the last result.
pub open spec fn system_prompt_spec(
    style: PromptStyle,
    dissatisfaction: bool,
    corrections: Seq<UserCorrection>,
) -> Seq<char> {
    let base = join_spec(style_sentences(style), seq![' ']);
    let with_corrections = if corrections.len() > 0 {
        base + " 用户之前的修改记录供参考："@ + join_spec(
            corrections.take(at_most(corrections.len() as int, 3)).map_values(
                |c: UserCorrection| system_correction_line(c),
            ),
            "；"@,
        )
    } else {
        base
    };
    if dissatisfaction {
        with_corrections + " 用户对之前的转写结果表示不满，请更加谨慎地处理，特别注意可能存在同音字错误。"@
    } else {
        with_corrections
    }
}

/// The first `count` corrections, each turned into a line by the system or the
/// user prompt's format.
fn correction_lines(corrections: &[UserCorrection], count: usize, for_system: bool) -> (r: Vec<
    String,
>)
    requires
        count <= corrections@.len(),
    ensures
        for_system ==> r@.map_values(|p: String| p@) == corrections@.take(count as int).map_values(
            |c: UserCorrection| system_correction_line(c),
        ),
        !for_system ==> r@.map_values(|p: String| p@) == corrections@.take(
            count as int,
        ).map_values(|c: UserCorrection| user_correction_line(c)),
{
    let mut r: Vec<String> = Vec::new();
    for i in 0..count
        invariant
            count <= corrections@.len(),
            r@.len() == i,
            forall|k: int|
                0 <= k < i ==> #[trigger] r@[k]@ == if for_system {
                    system_correction_line(corrections@[k])
                } else {
                    user_correction_line(corrections@[k])
                },
    {
        let c = &corrections[i];
        let mut line = String::new();
        if for_system {
            push_str(&mut line, "原文「");
            push_str(&mut line, c.original.as_str());
            push_str(&mut line, "」→ 用户修改为「");
            push_str(&mut line, c.final_text.as_str());
            push_str(&mut line, "」");
            assert(line@ =~= system_correction_line(*c));
        } else {
            push_str(&mut line, "- 原文：");
            push_str(&mut line, c.original.as_str());
            push_str(&mut line, " → 终稿：");
            push_str(&mut line, c.final_text.as_str());
            assert(line@ =~= user_correction_line(*c));
        }
        r.push(line);
    }
    if for_system {
        assert(r@.map_values(|p: String| p@) =~= corrections@.take(count as int).map_values(
            |c: UserCorrection| system_correction_line(c),
        ));
    } else {
        assert(r@.map_values(|p: String| p@) =~= corrections@.take(count as int).map_values(
            |c: UserCorrection| user_correction_line(c),
        ));
    }
    r
}

/// Builds the system prompt.
pub fn build_system_prompt(
    style: &PromptStyle,
    dissatisfaction: bool,
    corrections: &[UserCorrection],
) -> (r: String)
    ensures
        r@ == system_prompt_spec(*style, dissatisfaction, corrections@),
{
    let sentences = style_sentence_list(*style);
    let mut result = join_strings(&sentences, " ");
    assert(" "@ =~= seq![' ']) by {
        reveal_strlit(" ");
    }
    if corrections.len() > 0 {
        let count = if corrections.len() < SYSTEM_CORRECTIONS_SHOWN {
            corrections.len()
        } else {
            SYSTEM_CORRECTIONS_SHOWN
        };
        let lines = correction_lines(corrections, count, true);
        let joined = join_strings(&lines, "；");
        push_str(&mut result, " 用户之前的修改记录供参考：");
        push_str(&mut result, joined.as_str());
    }
    if dissatisfaction {
        push_str(
            &mut result,
            " 用户对之前的转写结果表示不满，请更加谨慎地处理，特别注意可能存在同音字错误。",
        );
    }
    result
}

/// How the user prompt quotes a correction.
pub open spec fn user_correction_line(c: UserCorrection) -> Seq<char> {
    "- 原文："@ + c.original@ + " → 终稿："@ + c.final_text@
}


/// How the user prompt lists a segment: `[start-end] text`.
pub open spec fn segment_line(seg: AsrSegment) -> Seq<char> {
    seq!['['] + decimal_spec(seg.start_ms as nat) + seq!['-'] + decimal_spec(seg.end_ms as nat)
        + seq![']', ' '] + seg.text@
}

/// The segment listing: one line per segment, or a note that there are none.
pub open spec fn segments_text(segments: Seq<AsrSegment>) -> Seq<char> {
    if segments.len() == 0 {
        "无分段信息。"@
    } else {
        join_spec(segments.map_values(|seg: AsrSegment| segment_line(seg)), seq!['\n'])
    }
}

/// The text of `s`, or nothing when `cond` fails.
pub open spec fn when(cond: bool, s: Seq<char>) -> Seq<char> {
    if cond {
        s
    } else {
        Seq::empty()
    }
}

/// The cursor-context section of the user prompt: present when there is text on
/// either side of the cursor.
pub open spec fn context_section(ctx: CursorContext) -> Seq<char> {
    let has_before = ctx.before@.len() > 0;
    let has_after = ctx.after@.len() > 0;
    if has_before || has_after {
        "\n\n光标上下文："@ + when(has_before, "\n光标前文："@ + ctx.before@) + when(
            has_after,
            "\n光标后文："@ + ctx.after@,
        ) + when(ctx.indentation@.len() > 0, "\n当前缩进："@ + ctx.indentation@) + when(
            ctx.is_in_list,
            "\n当前在列表中，标记："@ + ctx.list_marker@ + when(
                ctx.follows_numbered_list,
                "（编号列表，下一个序号："@ + decimal_spec(
                    (match ctx.current_number {
                        Some(n) => n as nat,
                        None => 0nat,
                    }) + 1,
                ) + "）"@,
            ),
        ) + when(
            !ctx.ends_with_punctuation && has_before,
            "\n注意：光标前文未以标点结尾，输出应自然衔接。"@,
        )
    } else {
        Seq::empty()
    }
}

/// The next list number can be computed: it is only needed when the context
/// section shows a numbered list, and then the current number is below the
/// largest `u32`.
pub open spec fn next_number_computable(ctx: CursorContext) -> bool {
    (ctx.before@.len() > 0 || ctx.after@.len() > 0) && ctx.is_in_list && ctx.follows_numbered_list
        ==> ctx.current_number != Some(u32::MAX)
}

/// The correction section of the user prompt: up to five earlier corrections.
pub open spec fn correction_section(corrections: Seq<UserCorrection>) -> Seq<char> {
    if corrections.len() > 0 {
        "\n\n用户修改历史（学习这些模式，避免重复错误）：\n"@ + join_spec(
            corrections.take(at_most(corrections.len() as int, 5)).map_values(
                |c: UserCorrection| user_correction_line(c),
            ),
            seq!['\n'],
        )
    } else {
        Seq::empty()
    }
}

/// The user prompt: the request, the cursor context, earlier corrections, the raw
/// transcript, its pinyin hint and its segments.
pub open spec fn user_prompt_spec(
    transcript: AsrOutput,
    pinyin_hint: Seq<char>,
    ctx: CursorContext,
    corrections: Seq<UserCorrection>,
) -> Seq<char> {
    "请输出最终润色后的文本，并统一使用简体中文。"@ + context_section(ctx) + correction_section(
        corrections,
    ) + "\n\n原始转写：\n"@ + transcript.text@ + "\n\n拼音提示：\n"@ + pinyin_hint
        + "\n\n分段信息：\n"@ + segments_text(transcript.segments@) + "\n"@
}

fn segment_lines(segments: &Vec<AsrSegment>) -> (r: Vec<String>)
    ensures
        r@.map_values(|p: String| p@) == segments@.map_values(|seg: AsrSegment| segment_line(seg)),
{
    let mut r: Vec<String> = Vec::new();
    for i in 0..segments.len()
        invariant
            r@.len() == i,
            forall|k: int| 0 <= k < i ==> #[trigger] r@[k]@ == segment_line(segments@[k]),
    {
        let seg = &segments[i];
        let mut line = String::new();
        push_char(&mut line, '[');
        push_decimal(&mut line, seg.start_ms);
        push_char(&mut line, '-');
        push_decimal(&mut line, seg.end_ms);
        push_char(&mut line, ']');
        push_char(&mut line, ' ');
        push_str(&mut line, seg.text.as_str());
        assert(line@ =~= segment_line(*seg));
        r.push(line);
    }
    assert(r@.map_values(|p: String| p@) =~= segments@.map_values(
        |seg: AsrSegment| segment_line(seg),
    ));
    r
}

fn push_context_section(out: &mut String, ctx: &CursorContext)
    requires
        next_number_computable(*ctx),
    ensures
        final(out)@ == old(out)@ + context_section(*ctx),
{
    let has_before = ctx.before.as_str().unicode_len() > 0;
    let has_after = ctx.after.as_str().unicode_len() > 0;
    if !(has_before || has_after) {
        assert(old(out)@ + context_section(*ctx) =~= old(out)@);
        return;
    }
    let mut sec = String::new();
    push_str(&mut sec, "\n\n光标上下文：");
    let ghost s0 = sec@;
    if has_before {
        push_str(&mut sec, "\n光标前文：");
        push_str(&mut sec, ctx.before.as_str());
    }
    let ghost s1 = sec@;
    assert(s1 =~= s0 + when(has_before, "\n光标前文："@ + ctx.before@));
    if has_after {
        push_str(&mut sec, "\n光标后文：");
        push_str(&mut sec, ctx.after.as_str());
    }
    let ghost s2 = sec@;
    assert(s2 =~= s1 + when(has_after, "\n光标后文："@ + ctx.after@));
    let has_indent = ctx.indentation.as_str().unicode_len() > 0;
    if has_indent {
        push_str(&mut sec, "\n当前缩进：");
        push_str(&mut sec, ctx.indentation.as_str());
    }
    let ghost s3 = sec@;
    assert(s3 =~= s2 + when(has_indent, "\n当前缩进："@ + ctx.indentation@));
    if ctx.is_in_list {
        push_str(&mut sec, "\n当前在列表中，标记：");
        push_str(&mut sec, ctx.list_marker.as_str());
        let ghost l0 = sec@;
        if ctx.follows_numbered_list {
            push_str(&mut sec, "（编号列表，下一个序号：");
            let current: u32 = match ctx.current_number {
                Some(n) => n,
                None => 0,
            };
            push_decimal(&mut sec, (current + 1) as u64);
            push_str(&mut sec, "）");
        }
        assert(sec@ =~= l0 + when(
            ctx.follows_numbered_list,
            "（编号列表，下一个序号："@ + decimal_spec(
                (match ctx.current_number {
                    Some(n) => n as nat,
                    None => 0nat,
                }) + 1,
            ) + "）"@,
        ));
    }
    let ghost s4 = sec@;
    assert(s4 =~= s3 + when(
        ctx.is_in_list,
        "\n当前在列表中，标记："@ + ctx.list_marker@ + when(
            ctx.follows_numbered_list,
            "（编号列表，下一个序号："@ + decimal_spec(
                (match ctx.current_number {
                    Some(n) => n as nat,
                    None => 0nat,
                }) + 1,
            ) + "）"@,
        ),
    ));
    let note = !ctx.ends_with_punctuation && has_before;
    if note {
        push_str(&mut sec, "\n注意：光标前文未以标点结尾，输出应自然衔接。");
    }
    assert(sec@ =~= s4 + when(note, "\n注意：光标前文未以标点结尾，输出应自然衔接。"@));
    assert(sec@ =~= context_section(*ctx));
    push_str(out, sec.as_str());
}

/// Builds the user prompt.
pub fn build_user_prompt(
    transcript: &AsrOutput,
    pinyin_hint: &str,
    cursor_context: &CursorContext,
    corrections: &[UserCorrection],
) -> (r: String)
    requires
        next_number_computable(*cursor_context),
    ensures
        r@ == user_prompt_spec(*transcript, pinyin_hint@, *cursor_context, corrections@),
{
    let segments = if transcript.segments.len() == 0 {
        to_owned("无分段信息。")
    } else {
        let lines = segment_lines(&transcript.segments);
        let joined = join_strings(&lines, "\n");
        assert("\n"@ =~= seq!['\n']) by {
            reveal_strlit("\n");
        }
        joined
    };
    assert(segments@ == segments_text(transcript.segments@));
    let mut correction_sec = String::new();
    if corrections.len() > 0 {
        let count = if corrections.len() < USER_CORRECTIONS_SHOWN {
            corrections.len()
        } else {
            USER_CORRECTIONS_SHOWN
        };
        let lines = correction_lines(corrections, count, false);
        let joined = join_strings(&lines, "\n");
        assert("\n"@ =~= seq!['\n']) by {
            reveal_strlit("\n");
        }
        push_str(&mut correction_sec, "\n\n用户修改历史（学习这些模式，避免重复错误）：\n");
        push_str(&mut correction_sec, joined.as_str());
    }
    assert(correction_sec@ =~= correction_section(corrections@));
    let mut out = String::new();
    push_str(&mut out, "请输出最终润色后的文本，并统一使用简体中文。");
    push_context_section(&mut out, cursor_context);
    push_str(&mut out, correction_sec.as_str());
    push_str(&mut out, "\n\n原始转写：\n");
    push_str(&mut out, transcript.text.as_str());
    push_str(&mut out, "\n\n拼音提示：\n");
    push_str(&mut out, pinyin_hint);
    push_str(&mut out, "\n\n分段信息：\n");
    push_str(&mut out, segments.as_str());
    push_str(&mut out, "\n");
    assert(out@ =~= user_prompt_spec(*transcript, pinyin_hint@, *cursor_context, corrections@));
    out
}


/// The line that separates the system prompt from the user prompt.
pub open spec fn prompt_separator() -> Seq<char> {
    "\n\n===USER_PROMPT===\n"@
}

/// The whole prompt: system prompt, separator, user prompt.
pub open spec fn full_prompt_spec(
    style: PromptStyle,
    transcript: AsrOutput,
    pinyin_hint: Seq<char>,
    ctx: CursorContext,
    dissatisfaction: bool,
    corrections: Seq<UserCorrection>,
) -> Seq<char> {
    system_prompt_spec(style, dissatisfaction, corrections) + prompt_separator()
        + user_prompt_spec(transcript, pinyin_hint, ctx, corrections)
}

/// Builds the whole prompt.
pub fn build_full_prompt(
    style: &PromptStyle,
    transcript: &AsrOutput,
    pinyin_hint: &str,
    cursor_context: &CursorContext,
    dissatisfaction: bool,
    corrections: &[UserCorrection],
) -> (r: String)
    requires
        next_number_computable(*cursor_context),
    ensures
        r@ == full_prompt_spec(
            *style,
            *transcript,
            pinyin_hint@,
            *cursor_context,
            dissatisfaction,
            corrections@,
        ),
{
    let system = build_system_prompt(style, dissatisfaction, corrections);
    let user = build_user_prompt(transcript, pinyin_hint, cursor_context, corrections);
    let mut out = system;
    push_str(&mut out, "\n\n===USER_PROMPT===\n");
    push_str(&mut out, user.as_str());
    out
}

/// The first two pieces of `full` split at the separator, as `str::split` yields
/// them: the text before the first separator (all of it when there is none), and
/// the text between the first and the second separator (empty when there is no
/// first one).
pub open spec fn split_prompt_spec(full: Seq<char>) -> (Seq<char>, Seq<char>) {
    let sep = prompt_separator();
    match find_from(full, sep, 0) {
        None => (full, Seq::empty()),
        Some(i) => {
            let start = i + sep.len();
            (
                full.take(i),
                match find_from(full, sep, start) {
                    Some(j) => full.subrange(start, j),
                    None => full.skip(start),
                },
            )
        },
    }
}

/// The system and user messages for the language model.
pub struct ChatMessages {
    pub system: String,
    pub user: String,
}

/// Splits a whole prompt into its system and user messages.
pub fn split_prompt(full: &str) -> (r: ChatMessages)
    ensures
        (r.system@, r.user@) == split_prompt_spec(full@),
{
    let v = chars_of(full);
    let sep_str = to_owned("\n\n===USER_PROMPT===\n");
    let sep = chars_of(sep_str.as_str());
    match find(&v, &sep, 0) {
        None => ChatMessages { system: to_owned(full), user: String::new() },
        Some(i) => {
            proof {
                lemma_find_from(v@, sep@, 0);
                assert(occurs_at(v@, sep@, i as int));
                assert(i + sep@.len() <= v@.len());
                assert(sep@.len() == sep.len());
                assert(v@.len() == v.len());
            }
            let start = i + sep.len();
            let head = sub_chars(&v, 0, i);
            assert(head@ =~= full@.take(i as int));
            let end = match find(&v, &sep, start) {
                Some(j) => {
                    proof {
                        lemma_find_from(v@, sep@, start as int);
                    }
                    j
                },
                None => v.len(),
            };
            let tail = sub_chars(&v, start, end);
            assert(find_from(v@, sep@, start as int) is None ==> tail@ =~= full@.skip(
                start as int,
            ));
            ChatMessages { system: string_from_chars(&head), user: string_from_chars(&tail) }
        },
    }
}

proof fn lemma_find_first(s: Seq<char>, pat: Seq<char>, start: int, i: int)
    requires
        0 <= start <= i,
        occurs_at(s, pat, i),
        forall|k: int| start <= k < i ==> !occurs_at(s, pat, k),
    ensures
        find_from(s, pat, start) == Some(i),
    decreases i - start,
{
    if start < i {
        lemma_find_first(s, pat, start + 1, i);
    }
}

proof fn lemma_find_none(s: Seq<char>, pat: Seq<char>, start: int)
    requires
        0 <= start,
        forall|k: int| start <= k ==> !occurs_at(s, pat, k),
    ensures
        find_from(s, pat, start) is None,
    decreases s.len() + 1 - start,
{
    if start + pat.len() <= s.len() {
        lemma_find_none(s, pat, start + 1);
    }
}

/// Splitting the whole prompt gives back the two prompts it was built from, when
/// the separator does not occur in the user prompt, nor in the system prompt or
/// across its end.
pub proof fn law_split_recovers_prompts(system: Seq<char>, user: Seq<char>)
    requires
        forall|k: int| 0 <= k < system.len() ==> !occurs_at(system + prompt_separator(), prompt_separator(), k),
        forall|k: int| 0 <= k ==> !occurs_at(user, prompt_separator(), k),
    ensures
        split_prompt_spec(system + prompt_separator() + user) == (system, user),
{
    let sep = prompt_separator();
    let head = system + sep;
    let full = head + user;
    assert forall|k: int| 0 <= k < system.len() implies !occurs_at(full, sep, k) by {
        assert(!occurs_at(head, sep, k));
        if k + sep.len() <= full.len() {
            assert(full.subrange(k, k + sep.len()) =~= head.subrange(k, k + sep.len()));
        }
    }
    assert(full.subrange(system.len() as int, (system.len() + sep.len()) as int) =~= sep);
    lemma_find_first(full, sep, 0, system.len() as int);
    let start: int = (system.len() + sep.len()) as int;
    assert forall|k: int| start <= k implies !occurs_at(full, sep, k) by {
        if k + sep.len() <= full.len() {
            assert(full.subrange(k, k + sep.len()) =~= user.subrange(k - start, k - start
                + sep.len()));
            assert(!occurs_at(user, sep, k - start));
        }
    }
    lemma_find_none(full, sep, start);
    assert(full.take(system.len() as int) =~= system);
    assert(full.skip(start) =~= user);
}

/// Why a repair could not be requested or read.
#[derive(Clone, Copy, Debug, PartialEq, Eq, Structural)]
pub enum RepairError {
    /// No API key is configured.
    MissingApiKey,
    /// The model replied with nothing usable.
    EmptyReply,
}

/// Prepares the messages that ask the model to repair `transcript`: refused
/// without an API key, else the whole prompt split into its two messages.
pub fn repair_request(
    config: &AppConfig,
    transcript: &AsrOutput,
    pinyin_hint: &str,
    cursor_context: &CursorContext,
    dissatisfaction: bool,
    corrections: &[UserCorrection],
) -> (r: Result<ChatMessages, RepairError>)
    requires
        trim_spec(config.deepseek_api_key@).len() != 0 ==> next_number_computable(*cursor_context),
    ensures
        trim_spec(config.deepseek_api_key@).len() == 0 ==> r matches Err(
            RepairError::MissingApiKey,
        ),
        trim_spec(config.deepseek_api_key@).len() != 0 ==> (r matches Ok(m) && (m.system@, m.user@)
            == split_prompt_spec(
            full_prompt_spec(
                config.prompt_style,
                *transcript,
                pinyin_hint@,
                *cursor_context,
                dissatisfaction,
                corrections@,
            ),
        )),
{
    if trim(config.deepseek_api_key.as_str()).unicode_len() == 0 {
        return Err(RepairError::MissingApiKey);
    }
    let full = build_full_prompt(
        &config.prompt_style,
        transcript,
        pinyin_hint,
        cursor_context,
        dissatisfaction,
        corrections,
    );
    Ok(split_prompt(full.as_str()))
}

/// Reads the model's reply from the contents of its choices: the first one,
/// trimmed, unless there is none or it is blank.
pub fn repair_reply(contents: &Vec<String>) -> (r: Result<String, RepairError>)
    ensures
        contents@.len() > 0 && trim_spec(contents@[0]@).len() > 0 ==> (r matches Ok(t) && t@
            == trim_spec(contents@[0]@)),
        !(contents@.len() > 0 && trim_spec(contents@[0]@).len() > 0) ==> r matches Err(
            RepairError::EmptyReply,
        ),
{
    if contents.len() == 0 {
        return Err(RepairError::EmptyReply);
    }
    let t = trim(contents[0].as_str());
    if t.unicode_len() == 0 {
        return Err(RepairError::EmptyReply);
    }
    Ok(to_owned(t))
}

proof fn lemma_join_starts_with_first(parts: Seq<Seq<char>>, sep: Seq<char>)
    requires
        parts.len() > 0,
    ensures
        join_spec(parts, sep).len() >= parts[0].len(),
        join_spec(parts, sep).take(parts[0].len() as int) == parts[0],
    decreases parts.len(),
{
    if parts.len() > 1 {
        let init = parts.drop_last();
        lemma_join_starts_with_first(init, sep);
        let j = join_spec(init, sep);
        assert((j + sep + parts.last()).take(parts[0].len() as int) =~= j.take(
            parts[0].len() as int,
        ));
    }
}

/// The system prompt quotes earlier corrections whatever the dissatisfaction flag:
/// with at least one correction it starts with the bare prompt of its style, then
/// ` 用户之前的修改记录供参考：` and the first correction as
/// `原文「original」→ 用户修改为「final」`; each further correction, up to three,
/// adds `；` and its quote; later ones are not shown; and the flag only appends
/// the warning sentence.
pub proof fn law_system_prompt_quotes_corrections(
    style: PromptStyle,
    dissatisfaction: bool,
    corrections: Seq<UserCorrection>,
    next: UserCorrection,
)
    ensures
        system_prompt_spec(style, true, corrections) == system_prompt_spec(style, false, corrections)
            + " 用户对之前的转写结果表示不满，请更加谨慎地处理，特别注意可能存在同音字错误。"@,
        corrections.len() > 0 ==> {
            let head = system_prompt_spec(style, false, Seq::empty()) + " 用户之前的修改记录供参考："@
                + "原文「"@ + corrections[0].original@ + "」→ 用户修改为「"@
                + corrections[0].final_text@ + "」"@;
            &&& system_prompt_spec(style, dissatisfaction, corrections).len() >= head.len()
            &&& system_prompt_spec(style, dissatisfaction, corrections).take(head.len() as int)
                == head
        },
        0 < corrections.len() < 3 ==> system_prompt_spec(style, false, corrections.push(next))
            == system_prompt_spec(style, false, corrections) + "；"@ + "原文「"@ + next.original@
            + "」→ 用户修改为「"@ + next.final_text@ + "」"@,
        corrections.len() >= 3 ==> system_prompt_spec(style, dissatisfaction, corrections.push(next))
            == system_prompt_spec(style, dissatisfaction, corrections),
{
    let f = |c: UserCorrection| system_correction_line(c);
    let base = join_spec(style_sentences(style), seq![' ']);
    assert(system_prompt_spec(style, false, Seq::empty()) == base);
    if corrections.len() > 0 {
        let shown = corrections.take(at_most(corrections.len() as int, 3));
        let lines = shown.map_values(f);
        assert(lines[0] == system_correction_line(corrections[0]));
        lemma_join_starts_with_first(lines, "；"@);
        let joined = join_spec(lines, "；"@);
        let pre = base + " 用户之前的修改记录供参考："@;
        let head = pre + system_correction_line(corrections[0]);
        assert(head =~= base + " 用户之前的修改记录供参考："@ + "原文「"@ + corrections[0].original@
            + "」→ 用户修改为「"@ + corrections[0].final_text@ + "」"@);
        let full = system_prompt_spec(style, dissatisfaction, corrections);
        assert(full.take(head.len() as int) =~= head) by {
            assert(joined.take(lines[0].len() as int) == lines[0]);
            assert forall|i: int| 0 <= i < head.len() implies full[i] == head[i] by {
                if i >= pre.len() {
                    assert(full[i] == joined[i - pre.len()]);
                    assert(joined.take(lines[0].len() as int)[i - pre.len()] == joined[i
                        - pre.len()]);
                }
            }
        }
    }
    if 0 < corrections.len() < 3 {
        let more = corrections.push(next);
        let shown = corrections.take(at_most(corrections.len() as int, 3));
        let shown2 = more.take(at_most(more.len() as int, 3));
        assert(shown =~= corrections);
        assert(shown2 =~= more);
        let lines = shown.map_values(f);
        let lines2 = shown2.map_values(f);
        assert(lines2 =~= lines.push(system_correction_line(next)));
        assert(lines2.drop_last() =~= lines);
        assert(join_spec(lines2, "；"@) == join_spec(lines, "；"@) + "；"@ + system_correction_line(
            next,
        ));
    }
    if corrections.len() >= 3 {
        let more = corrections.push(next);
        assert(more.take(3) =~= corrections.take(3));
    }
}

} // verus!
