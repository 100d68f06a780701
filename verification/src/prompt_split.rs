//! Why the texts that go into a repair prompt cannot break its split: the
//! separator holds the word `USER_PROMPT`, and every fixed piece of the two
//! prompts borders the inputs with characters that cannot occur in that word.

use vstd::prelude::*;
use crate::asr::{AsrOutput, AsrSegment};
use crate::config::PromptStyle;
use crate::deepseek::{
    at_most, context_section, correction_section, full_prompt_spec, law_split_recovers_prompts,
    prompt_separator, segment_line, segments_text, split_prompt_spec, style_sentences,
    system_correction_line, system_prompt_spec, user_correction_line, user_prompt_spec,
};
use crate::delivery::CursorContext;
use crate::hotkey::UserCorrection;
use crate::text::{contains_spec, decimal_spec, digit_char, join_spec, occurs_at};

verus! {

/// The word inside the separator line.
pub open spec fn marker() -> Seq<char> {
    "USER_PROMPT"@
}

/// `s` does not contain the separator's word.
pub open spec fn marker_free(s: Seq<char>) -> bool {
    !contains_spec(s, marker())
}

/// Characters that can occur in the separator's word: ASCII capitals and `_`.
pub open spec fn marker_char(c: char) -> bool {
    ('A' <= c && c <= 'Z') || c == '_'
}

/// No character of `s` can occur in the separator's word.
pub open spec fn plain_chars(s: Seq<char>) -> bool {
    forall|i: int| 0 <= i < s.len() ==> !marker_char(#[trigger] s[i])
}

/// `s` is empty or starts with a character that cannot occur in the word.
pub open spec fn starts_plain(s: Seq<char>) -> bool {
    s.len() == 0 || !marker_char(s[0])
}

/// `s` is empty or ends with a character that cannot occur in the word.
pub open spec fn ends_plain(s: Seq<char>) -> bool {
    s.len() == 0 || !marker_char(s.last())
}

proof fn lemma_marker()
    ensures
        marker().len() == 11,
        forall|j: int| 0 <= j < 11 ==> marker_char(#[trigger] marker()[j]),
{
    reveal_strlit("USER_PROMPT");
}

/// Text made of characters that cannot occur in the word does not contain it.
proof fn lemma_plain(s: Seq<char>)
    requires
        plain_chars(s),
    ensures
        marker_free(s),
        starts_plain(s),
        ends_plain(s),
{
    lemma_marker();
    assert forall|k: int| !occurs_at(s, marker(), k) by {
        if occurs_at(s, marker(), k) {
            assert(s[k] == s.subrange(k, k + 11)[0]);
        }
    }
}

/// Joining two texts free of the word gives a text free of it, when a character
/// that cannot occur in the word stands on one side of the seam.
proof fn lemma_cat(a: Seq<char>, b: Seq<char>)
    requires
        marker_free(a),
        marker_free(b),
        starts_plain(b) || ends_plain(a),
    ensures
        marker_free(a + b),
        starts_plain(a) && (a.len() > 0 || starts_plain(b)) ==> starts_plain(a + b),
        ends_plain(b) && (b.len() > 0 || ends_plain(a)) ==> ends_plain(a + b),
{
    lemma_marker();
    let s = a + b;
    assert forall|k: int| !occurs_at(s, marker(), k) by {
        if occurs_at(s, marker(), k) {
            if k + 11 <= a.len() {
                assert(a.subrange(k, k + 11) =~= s.subrange(k, k + 11));
                assert(occurs_at(a, marker(), k));
            } else if k >= a.len() {
                assert(b.subrange(k - a.len(), k - a.len() + 11) =~= s.subrange(k, k + 11));
                assert(occurs_at(b, marker(), k - a.len()));
            } else {
                assert(s[a.len() - 1] == s.subrange(k, k + 11)[a.len() - 1 - k]);
                assert(s[a.len() as int] == s.subrange(k, k + 11)[a.len() - k]);
                assert(marker_char(marker()[a.len() - 1 - k]));
                assert(marker_char(marker()[a.len() - k]));
            }
        }
    }
    if a.len() > 0 {
        assert(s[0] == a[0]);
    }
    if b.len() > 0 {
        assert(s.last() == b.last());
    } else {
        assert(s =~= a);
    }
}

/// Decimal digits cannot occur in the word.
proof fn lemma_decimal_plain(n: nat)
    ensures
        plain_chars(decimal_spec(n)),
    decreases n,
{
    if n >= 10 {
        lemma_decimal_plain(n / 10);
        let d = decimal_spec(n / 10);
        assert forall|i: int| 0 <= i < d.len() + 1 implies !marker_char(
            #[trigger] d.push(digit_char((n % 10) as int))[i],
        ) by {
            if i < d.len() {
                assert(d.push(digit_char((n % 10) as int))[i] == d[i]);
            }
        }
    }
}

/// Lines free of the word, each starting with a character that cannot occur in
/// it, joined by such characters, stay free of it.
proof fn lemma_join_clean(parts: Seq<Seq<char>>, sep: Seq<char>)
    requires
        sep.len() > 0,
        plain_chars(sep),
        forall|i: int|
            0 <= i < parts.len() ==> marker_free(#[trigger] parts[i]) && starts_plain(parts[i]),
    ensures
        marker_free(join_spec(parts, sep)),
        starts_plain(join_spec(parts, sep)),
    decreases parts.len(),
{
    lemma_marker();
    if parts.len() == 0 {
        assert forall|k: int| !occurs_at(join_spec(parts, sep), marker(), k) by {}
    } else if parts.len() > 1 {
        let init = parts.drop_last();
        assert forall|i: int| 0 <= i < init.len() implies marker_free(#[trigger] init[i])
            && starts_plain(init[i]) by {
            assert(init[i] == parts[i]);
        }
        lemma_join_clean(init, sep);
        let j = join_spec(init, sep);
        lemma_plain(sep);
        lemma_cat(j, sep);
        assert(marker_free(parts[parts.len() - 1]));
        lemma_cat(j + sep, parts.last());
    }
}

/// A nonempty text of characters that cannot occur in the word.
pub open spec fn plain_text(s: Seq<char>) -> bool {
    s.len() > 0 && plain_chars(s)
}

/// The fixed pieces of the user prompt.
proof fn lemma_user_literals()
    ensures
        plain_text("请输出最终润色后的文本，并统一使用简体中文。"@),
        plain_text("\n\n光标上下文："@),
        plain_text("\n光标前文："@),
        plain_text("\n光标后文："@),
        plain_text("\n当前缩进："@),
        plain_text("\n当前在列表中，标记："@),
        plain_text("（编号列表，下一个序号："@),
        plain_text("）"@),
        plain_text("\n注意：光标前文未以标点结尾，输出应自然衔接。"@),
        plain_text("\n\n用户修改历史（学习这些模式，避免重复错误）：\n"@),
        plain_text("- 原文："@),
        plain_text(" → 终稿："@),
        plain_text("\n\n原始转写：\n"@),
        plain_text("\n\n拼音提示：\n"@),
        plain_text("\n\n分段信息：\n"@),
        plain_text("无分段信息。"@),
        plain_text("\n"@),
{
    assert(plain_text("请输出最终润色后的文本，并统一使用简体中文。"@)) by {
        reveal_strlit("请输出最终润色后的文本，并统一使用简体中文。");
    }
    assert(plain_text("\n\n光标上下文："@)) by {
        reveal_strlit("\n\n光标上下文：");
    }
    assert(plain_text("\n光标前文："@)) by {
        reveal_strlit("\n光标前文：");
    }
    assert(plain_text("\n光标后文："@)) by {
        reveal_strlit("\n光标后文：");
    }
    assert(plain_text("\n当前缩进："@)) by {
        reveal_strlit("\n当前缩进：");
    }
    assert(plain_text("\n当前在列表中，标记："@)) by {
        reveal_strlit("\n当前在列表中，标记：");
    }
    assert(plain_text("（编号列表，下一个序号："@)) by {
        reveal_strlit("（编号列表，下一个序号：");
    }
    assert(plain_text("）"@)) by {
        reveal_strlit("）");
    }
    assert(plain_text("\n注意：光标前文未以标点结尾，输出应自然衔接。"@)) by {
        reveal_strlit("\n注意：光标前文未以标点结尾，输出应自然衔接。");
    }
    assert(plain_text("\n\n用户修改历史（学习这些模式，避免重复错误）：\n"@)) by {
        reveal_strlit("\n\n用户修改历史（学习这些模式，避免重复错误）：\n");
    }
    assert(plain_text("- 原文："@)) by {
        reveal_strlit("- 原文：");
    }
    assert(plain_text(" → 终稿："@)) by {
        reveal_strlit(" → 终稿：");
    }
    assert(plain_text("\n\n原始转写：\n"@)) by {
        reveal_strlit("\n\n原始转写：\n");
    }
    assert(plain_text("\n\n拼音提示：\n"@)) by {
        reveal_strlit("\n\n拼音提示：\n");
    }
    assert(plain_text("\n\n分段信息：\n"@)) by {
        reveal_strlit("\n\n分段信息：\n");
    }
    assert(plain_text("无分段信息。"@)) by {
        reveal_strlit("无分段信息。");
    }
    assert(plain_text("\n"@)) by {
        reveal_strlit("\n");
    }
}

/// The fixed pieces of the system prompt after its sentences.
proof fn lemma_system_literals()
    ensures
        plain_text(" 用户之前的修改记录供参考："@),
        plain_text("原文「"@),
        plain_text("」→ 用户修改为「"@),
        plain_text("」"@),
        plain_text("；"@),
        plain_text(" 用户对之前的转写结果表示不满，请更加谨慎地处理，特别注意可能存在同音字错误。"@),
{
    assert(plain_text(" 用户之前的修改记录供参考："@)) by {
        reveal_strlit(" 用户之前的修改记录供参考：");
    }
    assert(plain_text("原文「"@)) by {
        reveal_strlit("原文「");
    }
    assert(plain_text("」→ 用户修改为「"@)) by {
        reveal_strlit("」→ 用户修改为「");
    }
    assert(plain_text("」"@)) by {
        reveal_strlit("」");
    }
    assert(plain_text("；"@)) by {
        reveal_strlit("；");
    }
    assert(plain_text(" 用户对之前的转写结果表示不满，请更加谨慎地处理，特别注意可能存在同音字错误。"@)) by {
        reveal_strlit(" 用户对之前的转写结果表示不满，请更加谨慎地处理，特别注意可能存在同音字错误。");
    }
}


/// The sentences of every style.
proof fn lemma_style_sentences(style: PromptStyle)
    ensures
        forall|i: int|
            0 <= i < style_sentences(style).len() ==> plain_text(#[trigger] style_sentences(style)[i]),
{
    match style {
        PromptStyle::Default => {
            assert(plain_text("你负责修复中文语音转写结果。"@)) by {
                reveal_strlit("你负责修复中文语音转写结果。");
            }
            assert(plain_text("请结合原始转写和拼音提示，修正同音字、缺字、错字、标点和断句问题。"@)) by {
                reveal_strlit("请结合原始转写和拼音提示，修正同音字、缺字、错字、标点和断句问题。");
            }
            assert(plain_text("删除明显的口头禅、重复、自我修正和转写噪声。"@)) by {
                reveal_strlit("删除明显的口头禅、重复、自我修正和转写噪声。");
            }
            assert(plain_text("保持原意，不要编造事实。"@)) by {
                reveal_strlit("保持原意，不要编造事实。");
            }
            assert(plain_text("无论输入是简体还是繁体，最终输出必须统一为简体中文。"@)) by {
                reveal_strlit("无论输入是简体还是繁体，最终输出必须统一为简体中文。");
            }
            assert(plain_text("只返回最终可直接粘贴的文本，不要解释。"@)) by {
                reveal_strlit("只返回最终可直接粘贴的文本，不要解释。");
            }
        },
        PromptStyle::Concise => {
            assert(plain_text("你负责修复中文语音转写结果。"@)) by {
                reveal_strlit("你负责修复中文语音转写结果。");
            }
            assert(plain_text("修正同音字、缺字、错字、标点问题。"@)) by {
                reveal_strlit("修正同音字、缺字、错字、标点问题。");
            }
            assert(plain_text("删除口头禅、重复和噪声。"@)) by {
                reveal_strlit("删除口头禅、重复和噪声。");
            }
            assert(plain_text("保持简洁，不要扩展内容。"@)) by {
                reveal_strlit("保持简洁，不要扩展内容。");
            }
            assert(plain_text("只返回最终可直接粘贴的文本。"@)) by {
                reveal_strlit("只返回最终可直接粘贴的文本。");
            }
        },
        PromptStyle::Formal => {
            assert(plain_text("你负责将中文语音转写结果整理为正式文本。"@)) by {
                reveal_strlit("你负责将中文语音转写结果整理为正式文本。");
            }
            assert(plain_text("修正所有文字错误、标点和断句。"@)) by {
                reveal_strlit("修正所有文字错误、标点和断句。");
            }
            assert(plain_text("删除口语化表达、重复和口头禅。"@)) by {
                reveal_strlit("删除口语化表达、重复和口头禅。");
            }
            assert(plain_text("将内容整理为流畅的正式书面语。"@)) by {
                reveal_strlit("将内容整理为流畅的正式书面语。");
            }
            assert(plain_text("保持原意，不添加内容。"@)) by {
                reveal_strlit("保持原意，不添加内容。");
            }
            assert(plain_text("只返回最终可直接粘贴的文本。"@)) by {
                reveal_strlit("只返回最终可直接粘贴的文本。");
            }
        },
        PromptStyle::Creative => {
            assert(plain_text("你负责润色中文语音转写结果。"@)) by {
                reveal_strlit("你负责润色中文语音转写结果。");
            }
            assert(plain_text("在保持原意的基础上，让文字更加生动流畅。"@)) by {
                reveal_strlit("在保持原意的基础上，让文字更加生动流畅。");
            }
            assert(plain_text("修正同音字、错字和标点。"@)) by {
                reveal_strlit("修正同音字、错字和标点。");
            }
            assert(plain_text("适当优化表达，使其更具表现力。"@)) by {
                reveal_strlit("适当优化表达，使其更具表现力。");
            }
            assert(plain_text("只返回最终可直接粘贴的文本。"@)) by {
                reveal_strlit("只返回最终可直接粘贴的文本。");
            }
        },
    }
}

/// A correction as the system prompt quotes it.
proof fn lemma_system_line(c: UserCorrection)
    requires
        marker_free(c.original@),
        marker_free(c.final_text@),
    ensures
        marker_free(system_correction_line(c)),
        starts_plain(system_correction_line(c)),
{
    lemma_system_literals();
    let l1 = "原文「"@;
    let l2 = "」→ 用户修改为「"@;
    let l3 = "」"@;
    lemma_plain(l1);
    lemma_plain(l2);
    lemma_plain(l3);
    lemma_cat(l1, c.original@);
    lemma_cat(l1 + c.original@, l2);
    lemma_cat(l1 + c.original@ + l2, c.final_text@);
    lemma_cat(l1 + c.original@ + l2 + c.final_text@, l3);
}

/// A correction as the user prompt quotes it.
proof fn lemma_user_line(c: UserCorrection)
    requires
        marker_free(c.original@),
        marker_free(c.final_text@),
    ensures
        marker_free(user_correction_line(c)),
        starts_plain(user_correction_line(c)),
{
    lemma_user_literals();
    let l1 = "- 原文："@;
    let l2 = " → 终稿："@;
    lemma_plain(l1);
    lemma_plain(l2);
    lemma_cat(l1, c.original@);
    lemma_cat(l1 + c.original@, l2);
    lemma_cat(l1 + c.original@ + l2, c.final_text@);
}

/// A segment as the user prompt lists it.
proof fn lemma_segment_line(seg: AsrSegment)
    requires
        marker_free(seg.text@),
    ensures
        marker_free(segment_line(seg)),
        starts_plain(segment_line(seg)),
{
    let open = seq!['['];
    let dash = seq!['-'];
    let close = seq![']', ' '];
    let start = decimal_spec(seg.start_ms as nat);
    let end = decimal_spec(seg.end_ms as nat);
    lemma_plain(open);
    lemma_plain(dash);
    lemma_plain(close);
    lemma_decimal_plain(seg.start_ms as nat);
    lemma_decimal_plain(seg.end_ms as nat);
    lemma_plain(start);
    lemma_plain(end);
    lemma_cat(open, start);
    lemma_cat(open + start, dash);
    lemma_cat(open + start + dash, end);
    lemma_cat(open + start + dash + end, close);
    lemma_cat(open + start + dash + end + close, seg.text@);
}

/// A piece that may be left out keeps what the piece has.
proof fn lemma_when(cond: bool, s: Seq<char>)
    requires
        marker_free(s),
        starts_plain(s),
    ensures
        marker_free(crate::deepseek::when(cond, s)),
        starts_plain(crate::deepseek::when(cond, s)),
{
    if !cond {
        lemma_plain(Seq::empty());
    }
}

/// The cursor-context section.
proof fn lemma_context_section(ctx: CursorContext)
    requires
        marker_free(ctx.before@),
        marker_free(ctx.after@),
        marker_free(ctx.indentation@),
        marker_free(ctx.list_marker@),
    ensures
        marker_free(context_section(ctx)),
        starts_plain(context_section(ctx)),
{
    lemma_user_literals();
    let has_before = ctx.before@.len() > 0;
    let has_after = ctx.after@.len() > 0;
    if !(has_before || has_after) {
        lemma_plain(Seq::empty());
        return;
    }
    let head = "\n\n光标上下文："@;
    let before_lit = "\n光标前文："@;
    let after_lit = "\n光标后文："@;
    let indent_lit = "\n当前缩进："@;
    let list_lit = "\n当前在列表中，标记："@;
    let number_lit = "（编号列表，下一个序号："@;
    let close = "）"@;
    let note = "\n注意：光标前文未以标点结尾，输出应自然衔接。"@;
    lemma_plain(head);
    lemma_plain(before_lit);
    lemma_plain(after_lit);
    lemma_plain(indent_lit);
    lemma_plain(list_lit);
    lemma_plain(number_lit);
    lemma_plain(close);
    lemma_plain(note);

    lemma_cat(before_lit, ctx.before@);
    lemma_cat(after_lit, ctx.after@);
    lemma_cat(indent_lit, ctx.indentation@);
    let next = (match ctx.current_number {
        Some(n) => n as nat,
        None => 0nat,
    }) + 1;
    lemma_decimal_plain(next);
    lemma_plain(decimal_spec(next));
    lemma_cat(number_lit, decimal_spec(next));
    lemma_cat(number_lit + decimal_spec(next), close);
    let numbered = number_lit + decimal_spec(next) + close;
    lemma_when(ctx.follows_numbered_list, numbered);
    lemma_cat(list_lit, ctx.list_marker@);
    lemma_cat(list_lit + ctx.list_marker@, crate::deepseek::when(ctx.follows_numbered_list, numbered));
    let list = list_lit + ctx.list_marker@ + crate::deepseek::when(ctx.follows_numbered_list, numbered);

    let w1 = crate::deepseek::when(has_before, before_lit + ctx.before@);
    let w2 = crate::deepseek::when(has_after, after_lit + ctx.after@);
    let w3 = crate::deepseek::when(ctx.indentation@.len() > 0, indent_lit + ctx.indentation@);
    let w4 = crate::deepseek::when(ctx.is_in_list, list);
    let w5 = crate::deepseek::when(!ctx.ends_with_punctuation && has_before, note);
    lemma_when(has_before, before_lit + ctx.before@);
    lemma_when(has_after, after_lit + ctx.after@);
    lemma_when(ctx.indentation@.len() > 0, indent_lit + ctx.indentation@);
    lemma_when(ctx.is_in_list, list);
    lemma_when(!ctx.ends_with_punctuation && has_before, note);
    lemma_cat(head, w1);
    lemma_cat(head + w1, w2);
    lemma_cat(head + w1 + w2, w3);
    lemma_cat(head + w1 + w2 + w3, w4);
    lemma_cat(head + w1 + w2 + w3 + w4, w5);
    assert(context_section(ctx) == head + w1 + w2 + w3 + w4 + w5);
}

/// The section of earlier corrections in the user prompt.
proof fn lemma_correction_section(corrections: Seq<UserCorrection>)
    requires
        forall|i: int|
            #![trigger corrections[i]]
            0 <= i < corrections.len() ==> marker_free(corrections[i].original@) && marker_free(
                corrections[i].final_text@,
            ),
    ensures
        marker_free(correction_section(corrections)),
        starts_plain(correction_section(corrections)),
{
    lemma_user_literals();
    if corrections.len() == 0 {
        lemma_plain(Seq::empty());
        return;
    }
    let shown = corrections.take(at_most(corrections.len() as int, 5));
    let lines = shown.map_values(|c: UserCorrection| user_correction_line(c));
    assert forall|i: int| 0 <= i < lines.len() implies marker_free(#[trigger] lines[i])
        && starts_plain(lines[i]) by {
        assert(shown[i] == corrections[i]);
        lemma_user_line(corrections[i]);
    }
    let nl = seq!['\n'];
    lemma_join_clean(lines, nl);
    let head = "\n\n用户修改历史（学习这些模式，避免重复错误）：\n"@;
    lemma_plain(head);
    lemma_cat(head, join_spec(lines, nl));
}

/// The segment listing.
proof fn lemma_segments_text(segments: Seq<AsrSegment>)
    requires
        forall|i: int| #![trigger segments[i]] 0 <= i < segments.len() ==> marker_free(segments[i].text@),
    ensures
        marker_free(segments_text(segments)),
        starts_plain(segments_text(segments)),
{
    lemma_user_literals();
    if segments.len() == 0 {
        lemma_plain("无分段信息。"@);
        return;
    }
    let lines = segments.map_values(|seg: AsrSegment| segment_line(seg));
    assert forall|i: int| 0 <= i < lines.len() implies marker_free(#[trigger] lines[i])
        && starts_plain(lines[i]) by {
        lemma_segment_line(segments[i]);
    }
    lemma_join_clean(lines, seq!['\n']);
}

/// The system prompt.
proof fn lemma_system_prompt(style: PromptStyle, dissatisfaction: bool, corrections: Seq<UserCorrection>)
    requires
        forall|i: int|
            #![trigger corrections[i]]
            0 <= i < corrections.len() ==> marker_free(corrections[i].original@) && marker_free(
                corrections[i].final_text@,
            ),
    ensures
        marker_free(system_prompt_spec(style, dissatisfaction, corrections)),
{
    lemma_system_literals();
    lemma_style_sentences(style);
    let sentences = style_sentences(style);
    assert forall|i: int| 0 <= i < sentences.len() implies marker_free(#[trigger] sentences[i])
        && starts_plain(sentences[i]) by {
        lemma_plain(sentences[i]);
    }
    let space = seq![' '];
    lemma_plain(space);
    lemma_join_clean(sentences, space);
    let base = join_spec(sentences, space);
    let with_corrections = if corrections.len() > 0 {
        let shown = corrections.take(at_most(corrections.len() as int, 3));
        let lines = shown.map_values(|c: UserCorrection| system_correction_line(c));
        assert forall|i: int| 0 <= i < lines.len() implies marker_free(#[trigger] lines[i])
            && starts_plain(lines[i]) by {
            assert(shown[i] == corrections[i]);
            lemma_system_line(corrections[i]);
        }
        let semicolon = "；"@;
        lemma_plain(semicolon);
        lemma_join_clean(lines, semicolon);
        let head = " 用户之前的修改记录供参考："@;
        lemma_plain(head);
        lemma_cat(base, head);
        lemma_cat(base + head, join_spec(lines, semicolon));
        base + head + join_spec(lines, semicolon)
    } else {
        base
    };
    let unhappy = " 用户对之前的转写结果表示不满，请更加谨慎地处理，特别注意可能存在同音字错误。"@;
    lemma_plain(unhappy);
    lemma_cat(with_corrections, unhappy);
}

/// The user prompt.
proof fn lemma_user_prompt(
    transcript: AsrOutput,
    pinyin_hint: Seq<char>,
    ctx: CursorContext,
    corrections: Seq<UserCorrection>,
)
    requires
        marker_free(transcript.text@),
        forall|i: int|
            #![trigger transcript.segments@[i]]
            0 <= i < transcript.segments@.len() ==> marker_free(transcript.segments@[i].text@),
        marker_free(pinyin_hint),
        marker_free(ctx.before@),
        marker_free(ctx.after@),
        marker_free(ctx.indentation@),
        marker_free(ctx.list_marker@),
        forall|i: int|
            #![trigger corrections[i]]
            0 <= i < corrections.len() ==> marker_free(corrections[i].original@) && marker_free(
                corrections[i].final_text@,
            ),
    ensures
        marker_free(user_prompt_spec(transcript, pinyin_hint, ctx, corrections)),
{
    lemma_user_literals();
    let l0 = "请输出最终润色后的文本，并统一使用简体中文。"@;
    let l1 = "\n\n原始转写：\n"@;
    let l2 = "\n\n拼音提示：\n"@;
    let l3 = "\n\n分段信息：\n"@;
    let l4 = "\n"@;
    lemma_plain(l0);
    lemma_plain(l1);
    lemma_plain(l2);
    lemma_plain(l3);
    lemma_plain(l4);
    let ctx_sec = context_section(ctx);
    let corr_sec = correction_section(corrections);
    let segs = segments_text(transcript.segments@);
    lemma_context_section(ctx);
    lemma_correction_section(corrections);
    lemma_segments_text(transcript.segments@);
    lemma_cat(l0, ctx_sec);
    lemma_cat(l0 + ctx_sec, corr_sec);
    lemma_cat(l0 + ctx_sec + corr_sec, l1);
    lemma_cat(l0 + ctx_sec + corr_sec + l1, transcript.text@);
    lemma_cat(l0 + ctx_sec + corr_sec + l1 + transcript.text@, l2);
    lemma_cat(l0 + ctx_sec + corr_sec + l1 + transcript.text@ + l2, pinyin_hint);
    lemma_cat(l0 + ctx_sec + corr_sec + l1 + transcript.text@ + l2 + pinyin_hint, l3);
    lemma_cat(l0 + ctx_sec + corr_sec + l1 + transcript.text@ + l2 + pinyin_hint + l3, segs);
    lemma_cat(
        l0 + ctx_sec + corr_sec + l1 + transcript.text@ + l2 + pinyin_hint + l3 + segs,
        l4,
    );
}

/// An occurrence of the separator holds the word five characters in.
proof fn lemma_separator_holds_marker(s: Seq<char>, k: int)
    requires
        occurs_at(s, prompt_separator(), k),
    ensures
        occurs_at(s, marker(), k + 5),
{
    reveal_strlit("\n\n===USER_PROMPT===\n");
    reveal_strlit("USER_PROMPT");
    assert(prompt_separator().subrange(5, 16) =~= marker());
    assert(s.subrange(k + 5, k + 16) =~= s.subrange(k, k + 20).subrange(5, 16));
}

/// Before the separator's word, the separator holds `\n\n===`.
proof fn lemma_separator_head()
    ensures
        prompt_separator().len() == 20,
        forall|j: int| 0 <= j < 5 ==> !marker_char(#[trigger] prompt_separator()[j]),
{
    reveal_strlit("\n\n===USER_PROMPT===\n");
}

/// If none of the texts that go into a repair prompt contains `USER_PROMPT`
/// (the transcript, its segments' texts, the pinyin hint, the cursor context's
/// texts before and after the cursor, its indentation and list marker, and both
/// texts of every earlier correction), splitting the whole prompt gives back the
/// system prompt and the user prompt it was built from.
pub proof fn law_split_recovers_repair_prompts(
    style: PromptStyle,
    transcript: AsrOutput,
    pinyin_hint: Seq<char>,
    ctx: CursorContext,
    dissatisfaction: bool,
    corrections: Seq<UserCorrection>,
)
    requires
        marker_free(transcript.text@),
        forall|i: int|
            #![trigger transcript.segments@[i]]
            0 <= i < transcript.segments@.len() ==> marker_free(transcript.segments@[i].text@),
        marker_free(pinyin_hint),
        marker_free(ctx.before@),
        marker_free(ctx.after@),
        marker_free(ctx.indentation@),
        marker_free(ctx.list_marker@),
        forall|i: int|
            #![trigger corrections[i]]
            0 <= i < corrections.len() ==> marker_free(corrections[i].original@) && marker_free(
                corrections[i].final_text@,
            ),
    ensures
        split_prompt_spec(
            full_prompt_spec(style, transcript, pinyin_hint, ctx, dissatisfaction, corrections),
        ) == (
            system_prompt_spec(style, dissatisfaction, corrections),
            user_prompt_spec(transcript, pinyin_hint, ctx, corrections),
        ),
{
    let system = system_prompt_spec(style, dissatisfaction, corrections);
    let user = user_prompt_spec(transcript, pinyin_hint, ctx, corrections);
    let sep = prompt_separator();
    lemma_system_prompt(style, dissatisfaction, corrections);
    lemma_user_prompt(transcript, pinyin_hint, ctx, corrections);
    lemma_marker();
    lemma_separator_head();
    assert forall|k: int| 0 <= k implies !occurs_at(user, sep, k) by {
        if occurs_at(user, sep, k) {
            lemma_separator_holds_marker(user, k);
        }
    }
    let head = system + sep;
    assert forall|k: int| 0 <= k < system.len() implies !occurs_at(head, sep, k) by {
        if occurs_at(head, sep, k) {
            lemma_separator_holds_marker(head, k);
            let m = k + 5;
            if m + 11 <= system.len() {
                assert(system.subrange(m, m + 11) =~= head.subrange(m, m + 11));
                assert(occurs_at(system, marker(), m));
            } else {
                let t = if m < system.len() {
                    system.len() as int
                } else {
                    m
                };
                assert(head[t] == head.subrange(m, m + 11)[t - m]);
                assert(head[t] == sep[t - system.len()]);
                assert(marker_char(marker()[t - m]));
            }
        }
    }
    law_split_recovers_prompts(system, user);
}

} // verus!
