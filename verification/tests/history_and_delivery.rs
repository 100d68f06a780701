use typemore::delivery::{
    deliver_text, detect_dissatisfaction, mark_as_pasted, record_paste_attempt, ClipboardHistory,
    DeliveryError, DeliveryStep,
};
use typemore::events::DeliveryMode;

fn texts(h: &ClipboardHistory) -> Vec<(String, bool)> {
    h.entries.iter().map(|e| (e.text.clone(), e.was_pasted)).collect()
}

#[test]
fn attempts_are_kept_newest_first_up_to_ten() {
    let mut h = ClipboardHistory::new();
    for i in 0..12u64 {
        record_paste_attempt(&mut h, &format!("t{}", i), i * 1000);
    }
    assert_eq!(h.entries.len(), 10);
    assert_eq!(h.entries[0].text, "t11");
    assert_eq!(h.entries[9].text, "t2");
    assert!(h.entries.iter().all(|e| !e.was_pasted));
}

#[test]
fn marking_touches_the_newest_unpasted_match_only() {
    let mut h = ClipboardHistory::new();
    record_paste_attempt(&mut h, "a", 0);
    record_paste_attempt(&mut h, "b", 1);
    record_paste_attempt(&mut h, "a", 2);
    mark_as_pasted(&mut h, "a");
    assert_eq!(texts(&h), vec![("a".into(), true), ("b".into(), false), ("a".into(), false)]);
    mark_as_pasted(&mut h, "a");
    assert_eq!(texts(&h), vec![("a".into(), true), ("b".into(), false), ("a".into(), true)]);
    mark_as_pasted(&mut h, "zzz");
    assert_eq!(texts(&h), vec![("a".into(), true), ("b".into(), false), ("a".into(), true)]);
}

#[test]
fn a_fresh_paste_is_not_dissatisfaction() {
    let mut h = ClipboardHistory::new();
    record_paste_attempt(&mut h, "x", 10_000);
    mark_as_pasted(&mut h, "x");
    assert!(!detect_dissatisfaction(&h, 14_999));
    // Five seconds later the same paste counts as a recent paste among the last three.
    assert!(detect_dissatisfaction(&h, 15_000));
    assert!(!detect_dissatisfaction(&h, 25_000));
}

#[test]
fn a_new_attempt_soon_after_a_paste_is_dissatisfaction() {
    let mut h = ClipboardHistory::new();
    record_paste_attempt(&mut h, "first", 0);
    mark_as_pasted(&mut h, "first");
    record_paste_attempt(&mut h, "second", 3_000);
    assert!(detect_dissatisfaction(&h, 4_000));
    assert!(!detect_dissatisfaction(&h, 15_000));
    assert!(!detect_dissatisfaction(&ClipboardHistory::new(), 0));
}

#[test]
fn only_the_three_newest_entries_count() {
    let mut h = ClipboardHistory::new();
    record_paste_attempt(&mut h, "old", 0);
    mark_as_pasted(&mut h, "old");
    for i in 0..3u64 {
        record_paste_attempt(&mut h, &format!("n{}", i), 100 + i);
    }
    assert!(!detect_dissatisfaction(&h, 1_000));
}

fn run(auto_paste: bool, answers: &[bool]) -> (Option<Result<DeliveryMode, DeliveryError>>, bool, usize) {
    let mut h = ClipboardHistory::new();
    let mut d = deliver_text(&mut h, "text", auto_paste, 0);
    let mut used = 0;
    for &ok in answers {
        if d.step == DeliveryStep::Finished {
            break;
        }
        d.advance(&mut h, ok);
        used += 1;
    }
    (d.outcome, h.entries[0].was_pasted, used)
}

#[test]
fn delivery_without_auto_paste_stays_on_the_clipboard() {
    assert_eq!(run(false, &[true, true, true]), (Some(Ok(DeliveryMode::ClipboardOnly)), false, 2));
}

#[test]
fn delivery_pastes_into_a_foreign_foreground_window() {
    assert_eq!(run(true, &[true, true, true, true]), (Some(Ok(DeliveryMode::Pasted)), true, 4));
}

#[test]
fn delivery_falls_back_to_the_focused_editor() {
    assert_eq!(run(true, &[true, true, false, true, true]), (Some(Ok(DeliveryMode::Pasted)), true, 5));
    assert_eq!(
        run(true, &[true, true, true, false, true, true]),
        (Some(Ok(DeliveryMode::Pasted)), true, 6)
    );
    assert_eq!(
        run(true, &[true, true, false, false]),
        (Some(Ok(DeliveryMode::ClipboardOnly)), false, 4)
    );
}

#[test]
fn delivery_reports_clipboard_failures() {
    assert_eq!(run(true, &[false]), (Some(Err(DeliveryError::ClipboardUnavailable)), false, 1));
    assert_eq!(run(true, &[true, false]), (Some(Err(DeliveryError::ClipboardWriteFailed)), false, 2));
}
