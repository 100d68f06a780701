use typemore::delivery::{check_list_pattern, chinese_to_number, detect_list_context, get_cursor_context};

fn shape(line: &str) -> Option<(String, bool, Option<u32>)> {
    check_list_pattern(line).map(|i| (i.marker, i.numbered, i.number))
}

#[test]
fn chinese_numerals_read_digit_by_digit() {
    assert_eq!(chinese_to_number("一"), Some(1));
    assert_eq!(chinese_to_number("十"), Some(10));
    assert_eq!(chinese_to_number("一二"), Some(12));
    assert_eq!(chinese_to_number("十一"), Some(101));
    assert_eq!(chinese_to_number("叁"), Some(3));
    assert_eq!(chinese_to_number(""), None);
    assert_eq!(chinese_to_number("百"), None);
    assert_eq!(chinese_to_number("三a"), None);
}

#[test]
fn bullets_are_recognized() {
    assert_eq!(shape("- item"), Some(("- ".to_string(), false, None)));
    assert_eq!(shape("  • item"), Some(("- ".to_string(), false, None)));
    assert_eq!(shape("· item"), Some(("- ".to_string(), false, None)));
    assert_eq!(shape("•item"), Some(("• ".to_string(), false, None)));
    assert_eq!(shape("* item"), Some(("* ".to_string(), false, None)));
    assert_eq!(shape("*"), Some(("* ".to_string(), false, None)));
    assert_eq!(shape("*item"), None);
    assert_eq!(shape("plain text"), None);
    assert_eq!(shape(""), None);
}

#[test]
fn numbered_items_are_recognized() {
    assert_eq!(shape("12. twelve"), Some(("12. ".to_string(), true, Some(12))));
    assert_eq!(shape("3、第三"), Some(("3. ".to_string(), true, Some(3))));
    assert_eq!(shape("三．第三"), Some(("三. ".to_string(), true, Some(3))));
    assert_eq!(shape("ab. x"), Some(("ab. ".to_string(), true, None)));
    assert_eq!(shape("1.2. x"), Some(("1. ".to_string(), true, Some(1))));
    assert_eq!(shape("99999999999. x"), Some(("99999999999. ".to_string(), true, None)));
    assert_eq!(shape("１２. x"), Some(("１２. ".to_string(), true, None)));
    assert_eq!(shape("百. x"), Some(("百. ".to_string(), true, None)));
    assert_eq!(shape("1a. x"), None);
}

#[test]
fn list_context_from_the_last_lines() {
    assert_eq!(detect_list_context("no newline"), (false, String::new(), false, None));
    assert_eq!(detect_list_context("intro\n- item"), (true, "- ".to_string(), false, None));
    assert_eq!(detect_list_context("1. a\n"), (true, "1. ".to_string(), true, Some(1)));
    assert_eq!(detect_list_context("x\n1. a\n   "), (true, "1. ".to_string(), true, Some(1)));
    assert_eq!(detect_list_context("- a\nplain"), (false, String::new(), false, None));
}

#[test]
fn no_cursor_context_is_read() {
    assert!(get_cursor_context().is_none());
}
