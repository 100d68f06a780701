use typemore::asr::{AsrOutput, AsrSegment};
use typemore::config::{AppConfig, PromptStyle};
use typemore::deepseek::{
    build_full_prompt, build_system_prompt, build_user_prompt, repair_reply, repair_request,
    split_prompt, RepairError,
};
use typemore::delivery::CursorContext;
use typemore::hotkey::UserCorrection;

fn correction(o: &str, f: &str) -> UserCorrection {
    UserCorrection { original: o.to_string(), final_text: f.to_string(), timestamp: 0 }
}

fn transcript(text: &str, segments: Vec<AsrSegment>) -> AsrOutput {
    AsrOutput { text: text.to_string(), segments }
}

const DEFAULT_SYSTEM: &str = "你负责修复中文语音转写结果。 请结合原始转写和拼音提示，修正同音字、缺字、错字、标点和断句问题。 删除明显的口头禅、重复、自我修正和转写噪声。 保持原意，不要编造事实。 无论输入是简体还是繁体，最终输出必须统一为简体中文。 只返回最终可直接粘贴的文本，不要解释。";

#[test]
fn system_prompt_per_style() {
    assert_eq!(build_system_prompt(&PromptStyle::Default, false, &[]), DEFAULT_SYSTEM);
    assert_eq!(
        build_system_prompt(&PromptStyle::Concise, false, &[]),
        "你负责修复中文语音转写结果。 修正同音字、缺字、错字、标点问题。 删除口头禅、重复和噪声。 保持简洁，不要扩展内容。 只返回最终可直接粘贴的文本。"
    );
    assert!(build_system_prompt(&PromptStyle::Formal, false, &[]).starts_with("你负责将中文语音转写结果整理为正式文本。 "));
    assert!(build_system_prompt(&PromptStyle::Creative, false, &[]).ends_with("适当优化表达，使其更具表现力。 只返回最终可直接粘贴的文本。"));
}

#[test]
fn system_prompt_quotes_three_corrections_and_a_warning() {
    let cs: Vec<_> = (0..4).map(|i| correction(&format!("o{}", i), &format!("f{}", i))).collect();
    let p = build_system_prompt(&PromptStyle::Default, true, &cs);
    let expected = format!(
        "{} 用户之前的修改记录供参考：原文「o0」→ 用户修改为「f0」；原文「o1」→ 用户修改为「f1」；原文「o2」→ 用户修改为「f2」 用户对之前的转写结果表示不满，请更加谨慎地处理，特别注意可能存在同音字错误。",
        DEFAULT_SYSTEM
    );
    assert_eq!(p, expected);
}

#[test]
fn user_prompt_without_context() {
    let t = transcript("你好", vec![]);
    let p = build_user_prompt(&t, "ni hao", &CursorContext::default(), &[]);
    assert_eq!(
        p,
        "请输出最终润色后的文本，并统一使用简体中文。\n\n原始转写：\n你好\n\n拼音提示：\nni hao\n\n分段信息：\n无分段信息。\n"
    );
}

#[test]
fn user_prompt_with_segments_context_and_corrections() {
    let t = transcript(
        "ab",
        vec![
            AsrSegment { start_ms: 0, end_ms: 1500, text: "a".into() },
            AsrSegment { start_ms: 1500, end_ms: 32000, text: "b".into() },
        ],
    );
    let ctx = CursorContext {
        before: "前".into(),
        after: "后".into(),
        line_start: String::new(),
        indentation: "  ".into(),
        ends_with_punctuation: false,
        is_in_list: true,
        list_marker: "1. ".into(),
        follows_numbered_list: true,
        current_number: Some(1),
    };
    let cs: Vec<_> = (0..6).map(|i| correction(&format!("o{}", i), "")).collect();
    let p = build_user_prompt(&t, "a b", &ctx, &cs);
    let expected = "请输出最终润色后的文本，并统一使用简体中文。\n\n光标上下文：\n光标前文：前\n光标后文：后\n当前缩进：  \n当前在列表中，标记：1. （编号列表，下一个序号：2）\n注意：光标前文未以标点结尾，输出应自然衔接。\n\n用户修改历史（学习这些模式，避免重复错误）：\n- 原文：o0 → 终稿：\n- 原文：o1 → 终稿：\n- 原文：o2 → 终稿：\n- 原文：o3 → 终稿：\n- 原文：o4 → 终稿：\n\n原始转写：\nab\n\n拼音提示：\na b\n\n分段信息：\n[0-1500] a\n[1500-32000] b\n";
    assert_eq!(p, expected);
}

#[test]
fn full_prompt_splits_back_into_its_halves() {
    let t = transcript("你好", vec![]);
    let ctx = CursorContext::default();
    let cs = vec![correction("x", "y")];
    let full = build_full_prompt(&PromptStyle::Formal, &t, "ni hao", &ctx, true, &cs);
    let m = split_prompt(&full);
    assert_eq!(m.system, build_system_prompt(&PromptStyle::Formal, true, &cs));
    assert_eq!(m.user, build_user_prompt(&t, "ni hao", &ctx, &cs));
}

#[test]
fn inputs_with_parts_of_the_separator_word_split_back() {
    let t = transcript(
        "USER_",
        vec![AsrSegment { start_ms: 0, end_ms: 10, text: "PROMPT".to_string() }],
    );
    let ctx = CursorContext {
        before: "===USER".into(),
        after: "_PROMPT===".into(),
        line_start: String::new(),
        indentation: "USER_PROM".into(),
        ends_with_punctuation: true,
        is_in_list: true,
        list_marker: "PT".into(),
        follows_numbered_list: false,
        current_number: None,
    };
    let cs = vec![correction("USER", "_PROMPT"), correction("\n\n===", "===\n")];
    let full = build_full_prompt(&PromptStyle::Default, &t, "_PROMPT", &ctx, false, &cs);
    let m = split_prompt(&full);
    assert_eq!(m.system, build_system_prompt(&PromptStyle::Default, false, &cs));
    assert_eq!(m.user, build_user_prompt(&t, "_PROMPT", &ctx, &cs));
}

#[test]
fn an_input_holding_the_separator_cuts_the_user_prompt() {
    let t = transcript("a\n\n===USER_PROMPT===\nb", vec![]);
    let ctx = CursorContext::default();
    let full = build_full_prompt(&PromptStyle::Default, &t, "", &ctx, false, &[]);
    let m = split_prompt(&full);
    assert_eq!(m.system, build_system_prompt(&PromptStyle::Default, false, &[]));
    assert_ne!(m.user, build_user_prompt(&t, "", &ctx, &[]));
    assert!(m.user.ends_with("a"));
}

#[test]
fn split_follows_str_split() {
    let sep = "\n\n===USER_PROMPT===\n";
    for s in ["no separator", "a\n\n===USER_PROMPT===\nb", "x\n\n===USER_PROMPT===\ny\n\n===USER_PROMPT===\nz", ""] {
        let m = split_prompt(s);
        let mut parts = s.split(sep);
        assert_eq!(m.system, parts.next().unwrap_or(""));
        assert_eq!(m.user, parts.next().unwrap_or(""));
    }
}

#[test]
fn repair_needs_an_api_key() {
    let mut config = AppConfig::default();
    config.deepseek_api_key = "   ".into();
    let t = transcript("你好", vec![]);
    let r = repair_request(&config, &t, "ni hao", &CursorContext::default(), false, &[]);
    assert_eq!(r.err(), Some(RepairError::MissingApiKey));
    config.deepseek_api_key = "SECRET-REDACTED".into();
    let m = repair_request(&config, &t, "ni hao", &CursorContext::default(), false, &[]).ok().unwrap();
    assert_eq!(m.system, DEFAULT_SYSTEM);
    assert!(m.user.contains("原始转写：\n你好"));
}

#[test]
fn reply_is_the_first_choice_trimmed() {
    assert_eq!(repair_reply(&vec![" 好的 \n".to_string(), "other".to_string()]), Ok("好的".to_string()));
    assert_eq!(repair_reply(&vec!["  ".to_string(), "other".to_string()]), Err(RepairError::EmptyReply));
    assert_eq!(repair_reply(&vec![]), Err(RepairError::EmptyReply));
}
