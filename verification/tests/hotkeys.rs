use typemore::hotkey::{
    get_corrections, record_pasted_text, update_recording_flag, EnterTextCapture, HotkeyState,
    KeyTransition,
};

#[test]
fn enter_press_and_release_records_the_submitted_text() {
    let mut c = EnterTextCapture::new();
    c.on_enter_down(Some("hello".to_string()));
    assert!(c.pending_enter);
    c.on_enter_up(42);
    let h = get_corrections(&c);
    assert_eq!(h.len(), 1);
    assert_eq!(h[0].original, "hello");
    assert_eq!(h[0].final_text, "");
    assert_eq!(h[0].timestamp, 42);
    assert!(!c.pending_enter);
    assert_eq!(c.last_submit_text, "");
}

#[test]
fn empty_or_missing_focus_text_is_ignored() {
    let mut c = EnterTextCapture::new();
    c.on_enter_down(None);
    c.on_enter_down(Some(String::new()));
    c.on_enter_up(1);
    assert!(get_corrections(&c).is_empty());
}

#[test]
fn a_second_press_keeps_the_first_text() {
    let mut c = EnterTextCapture::new();
    c.on_enter_down(Some("first".to_string()));
    c.on_enter_down(Some("second".to_string()));
    c.on_enter_up(5);
    assert_eq!(get_corrections(&c)[0].original, "first");
}

#[test]
fn a_paste_cancels_a_pending_enter() {
    let mut c = EnterTextCapture::new();
    c.on_enter_down(Some("typed".to_string()));
    record_pasted_text(&mut c, "pasted");
    assert_eq!(c.last_submit_text, "pasted");
    assert!(!c.pending_enter);
    c.on_enter_up(9);
    assert!(get_corrections(&c).is_empty());
}

#[test]
fn history_keeps_the_twenty_newest() {
    let mut c = EnterTextCapture::new();
    for i in 0..25u64 {
        c.on_enter_down(Some(format!("t{}", i)));
        c.on_enter_up(i);
    }
    let h = get_corrections(&c);
    assert_eq!(h.len(), 20);
    assert_eq!(h[0].original, "t24");
    assert_eq!(h[19].original, "t5");
}

#[test]
fn right_alt_click_requests_one_toggle() {
    let mut s = HotkeyState::new();
    let down = s.on_key_event(true, KeyTransition::Down);
    assert!(down.swallow && !down.toggle);
    let up = s.on_key_event(true, KeyTransition::Up);
    assert!(up.swallow && up.toggle);
    let again = s.on_key_event(true, KeyTransition::Up);
    assert!(again.swallow && !again.toggle);
    let other = s.on_key_event(false, KeyTransition::Down);
    assert!(!other.swallow && !other.toggle);
    assert!(!s.right_alt_pressed);
}

#[test]
fn a_single_press_flips_the_recording_state() {
    let mut s = HotkeyState::new();
    let t = s.queue_toggle(300);
    assert_eq!(t.delay_ms, 300);
    assert_eq!(s.take_target(t.generation), Some(true));
    assert_eq!(s.take_target(t.generation), None);
}

#[test]
fn two_quick_presses_cancel_out() {
    let mut s = HotkeyState::new();
    update_recording_flag(&mut s, true);
    let first = s.queue_toggle(10);
    let second = s.queue_toggle(10);
    assert_eq!(first.delay_ms, 50);
    assert_eq!(s.take_target(first.generation), None);
    assert_eq!(s.take_target(second.generation), Some(true));
}

#[test]
fn three_quick_presses_act_like_one() {
    let mut s = HotkeyState::new();
    let tickets: Vec<_> = (0..3).map(|_| s.queue_toggle(300)).collect();
    assert_eq!(s.take_target(tickets[2].generation), Some(true));
}
