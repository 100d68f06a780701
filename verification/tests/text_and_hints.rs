use typemore::pinyin_hint::build_pinyin_hint;
use typemore::pipeline::{is_cjk_unified_ideograph, should_skip_llm};
use typemore::text::{push_decimal, trim};

#[test]
fn trim_removes_unicode_whitespace_on_both_ends() {
    assert_eq!(trim("  hello world \t\n"), "hello world");
    assert_eq!(trim("\u{3000}你好\u{3000}"), "你好");
    assert_eq!(trim("   "), "");
    assert_eq!(trim(""), "");
    assert_eq!(trim("a"), "a");
}

#[test]
fn decimal_formatting_matches_display() {
    for n in [0u64, 7, 10, 99, 1234567890, u64::MAX] {
        let mut s = String::from("x");
        push_decimal(&mut s, n);
        assert_eq!(s, format!("x{}", n));
    }
}

#[test]
fn pinyin_hint_of_chinese_words() {
    assert_eq!(build_pinyin_hint("拼音"), "pin yin");
    assert_eq!(build_pinyin_hint("你好"), "ni hao");
}

#[test]
fn pinyin_hint_marks_whitespace_and_keeps_other_chars() {
    assert_eq!(build_pinyin_hint("你 a"), "ni / a");
    assert_eq!(build_pinyin_hint("ok!"), "o k !");
    assert_eq!(build_pinyin_hint(""), "");
}

#[test]
fn cjk_ranges() {
    assert!(is_cjk_unified_ideograph('中'));
    assert!(is_cjk_unified_ideograph('\u{3400}'));
    assert!(is_cjk_unified_ideograph('\u{20000}'));
    assert!(is_cjk_unified_ideograph('\u{F900}'));
    assert!(!is_cjk_unified_ideograph('a'));
    assert!(!is_cjk_unified_ideograph('。'));
    assert!(!is_cjk_unified_ideograph('\u{2EBF0}'));
}

#[test]
fn short_latin_transcripts_skip_the_model() {
    assert!(should_skip_llm("ok"));
    assert!(should_skip_llm("a, b."));
    assert!(should_skip_llm("   "));
    assert!(should_skip_llm("yes!"));
    assert!(!should_skip_llm("hello"));
}

#[test]
fn the_rule_counts_characters_of_any_script() {
    assert!(should_skip_llm("你"));
    assert!(should_skip_llm("a 好"));
    assert!(should_skip_llm("好的。"));
    assert!(!should_skip_llm("你好世界"));
}
