//! The right-Alt hotkey and the record of texts the user submitted with Enter.

use vstd::prelude::*;
use std::collections::VecDeque;
use crate::text::to_owned;

verus! {

/// How many submitted texts are remembered.
pub const CORRECTION_HISTORY_LIMIT: usize = 20;

/// The shortest wait before a hotkey press takes effect, in milliseconds.
pub const MIN_HOTKEY_BUFFER_MS: u64 = 50;

/// A text the user submitted after a dictation, and what it became.
///
/// `timestamp` is a reading of a monotonic clock in milliseconds.
#[derive(Debug)]
pub struct UserCorrection {
    pub original: String,
    pub final_text: String,
    pub timestamp: u64,
}

impl Clone for UserCorrection {
    fn clone(&self) -> (r: Self)
        ensures
            r == *self,
    {
        UserCorrection {
            original: self.original.clone(),
            final_text: self.final_text.clone(),
            timestamp: self.timestamp,
        }
    }
}

/// What the Enter-key watcher has seen: the text about to be submitted, whether an
/// Enter press is in progress, and the submitted texts, most recent first.
pub struct EnterTextCapture {
    pub last_submit_text: String,
    pub history: VecDeque<UserCorrection>,
    pub pending_enter: bool,
}

impl EnterTextCapture {
    /// The history holds at most `CORRECTION_HISTORY_LIMIT` entries.
    pub open spec fn wf(&self) -> bool {
        self.history@.len() <= CORRECTION_HISTORY_LIMIT
    }

    /// Nothing seen yet.
    pub fn new() -> (r: Self)
        ensures
            r.wf(),
            r.last_submit_text@ == Seq::<char>::empty(),
            r.history@ == Seq::<UserCorrection>::empty(),
            !r.pending_enter,
    {
        EnterTextCapture {
            last_submit_text: String::new(),
            history: VecDeque::with_capacity(CORRECTION_HISTORY_LIMIT),
            pending_enter: false,
        }
    }

    /// Enter went down while `focused_text` was in the focused edit control (`None`
    /// when there is no readable edit control). A non-empty text is remembered,
    /// unless an earlier press is still pending.
    pub fn on_enter_down(&mut self, focused_text: Option<String>)
        requires
            old(self).wf(),
        ensures
            final(self).wf(),
            final(self).history@ == old(self).history@,
            match focused_text {
                Some(t) => if t@.len() > 0 && !old(self).pending_enter {
                    final(self).last_submit_text@ == t@ && final(self).pending_enter
                } else {
                    final(self).last_submit_text@ == old(self).last_submit_text@
                        && final(self).pending_enter == old(self).pending_enter
                },
                None => final(self).last_submit_text@ == old(self).last_submit_text@
                    && final(self).pending_enter == old(self).pending_enter,
            },
    {
        if let Some(text) = focused_text {
            if text.as_str().unicode_len() > 0 && !self.pending_enter {
                self.last_submit_text = text;
                self.pending_enter = true;
            }
        }
    }

    /// Enter came up at time `now`. A pending non-empty text becomes the newest
    /// history entry, with an empty final text; the oldest entry leaves when the
    /// history is full.
    pub fn on_enter_up(&mut self, now: u64)
        requires
            old(self).wf(),
        ensures
            final(self).wf(),
            old(self).pending_enter && old(self).last_submit_text@.len() > 0 ==> {
                &&& final(self).history@.len() > 0
                &&& final(self).history@[0].original@ == old(self).last_submit_text@
                &&& final(self).history@[0].final_text@ == Seq::<char>::empty()
                &&& final(self).history@[0].timestamp == now
                &&& final(self).history@.drop_first() == old(self).history@.take(
                    if old(self).history@.len() >= CORRECTION_HISTORY_LIMIT {
                        CORRECTION_HISTORY_LIMIT - 1
                    } else {
                        old(self).history@.len() as int
                    },
                )
                &&& final(self).last_submit_text@ == Seq::<char>::empty()
                &&& !final(self).pending_enter
            },
            !(old(self).pending_enter && old(self).last_submit_text@.len() > 0) ==> {
                &&& final(self).history@ == old(self).history@
                &&& final(self).last_submit_text@ == old(self).last_submit_text@
                &&& final(self).pending_enter == old(self).pending_enter
            },
    {
        if self.pending_enter && self.last_submit_text.as_str().unicode_len() > 0 {
            let original = self.last_submit_text.clone();
            if self.history.len() >= CORRECTION_HISTORY_LIMIT {
                self.history.pop_back();
            }
            let ghost kept = self.history@;
            self.history.push_front(
                UserCorrection { original, final_text: String::new(), timestamp: now },
            );
            assert(self.history@.drop_first() =~= kept);
            self.last_submit_text = String::new();
            self.pending_enter = false;
        }
    }
}

/// Notes that `text` was just pasted: it becomes the text awaiting submission, and
/// any pending Enter press is forgotten.
pub fn record_pasted_text(capture: &mut EnterTextCapture, text: &str)
    requires
        old(capture).wf(),
    ensures
        final(capture).wf(),
        final(capture).last_submit_text@ == text@,
        !final(capture).pending_enter,
        final(capture).history@ == old(capture).history@,
{
    capture.last_submit_text = to_owned(text);
    capture.pending_enter = false;
}

/// The remembered submissions, most recent first.
pub fn get_corrections(capture: &EnterTextCapture) -> (r: Vec<UserCorrection>)
    ensures
        r@ == capture.history@,
{
    let mut r: Vec<UserCorrection> = Vec::new();
    let n = capture.history.len();
    for i in 0..n
        invariant
            n == capture.history@.len(),
            r@ == capture.history@.take(i as int),
    {
        r.push(capture.history[i].clone());
        assert(r@ =~= capture.history@.take(i + 1));
    }
    assert(capture.history@.take(n as int) =~= capture.history@);
    r
}


/// What a keyboard event did to its key.
#[derive(Clone, Copy, Debug, PartialEq, Eq, Structural)]
pub enum KeyTransition {
    /// The key went down (plain or system key-down).
    Down,
    /// The key came up (plain or system key-up).
    Up,
    /// Any other keyboard message.
    Other,
}

/// What the keyboard hook does with one event.
#[derive(Clone, Copy, Debug, PartialEq, Eq, Structural)]
pub struct KeyVerdict {
    /// The event is kept from other applications.
    pub swallow: bool,
    /// A recording toggle is requested.
    pub toggle: bool,
}

/// The hotkey's state: whether right Alt is held, whether a recording is running,
/// the recording state that queued presses ask for, and the number of presses so far.
#[derive(Clone, Copy, Debug, PartialEq, Eq, Structural)]
pub struct HotkeyState {
    pub right_alt_pressed: bool,
    pub actual_recording: bool,
    pub pending_target: Option<bool>,
    pub generation: u64,
}

/// A queued press: its number and how long to wait before acting on it.
#[derive(Clone, Copy, Debug, PartialEq, Eq, Structural)]
pub struct ToggleTicket {
    pub generation: u64,
    pub delay_ms: u64,
}

/// The hotkey state after a key event.
pub open spec fn key_event_state(s: HotkeyState, is_right_alt: bool, t: KeyTransition) -> HotkeyState {
    if !is_right_alt {
        s
    } else {
        match t {
            KeyTransition::Down => HotkeyState { right_alt_pressed: true, ..s },
            KeyTransition::Up => HotkeyState { right_alt_pressed: false, ..s },
            KeyTransition::Other => s,
        }
    }
}

/// The hook's verdict on a key event: right-Alt events are swallowed, and its
/// release asks for a toggle when a press of it was seen.
pub open spec fn key_event_verdict(s: HotkeyState, is_right_alt: bool, t: KeyTransition) -> KeyVerdict {
    KeyVerdict {
        swallow: is_right_alt,
        toggle: is_right_alt && t == KeyTransition::Up && s.right_alt_pressed,
    }
}

/// The hotkey state after a press was queued.
pub open spec fn queued_state(s: HotkeyState) -> HotkeyState {
    let base = match s.pending_target {
        Some(t) => t,
        None => s.actual_recording,
    };
    HotkeyState { pending_target: Some(!base), generation: (s.generation + 1) as u64, ..s }
}

/// The wait before a queued press takes effect: the configured buffer, at least
/// `MIN_HOTKEY_BUFFER_MS`.
pub open spec fn toggle_delay(buffer_ms: u64) -> u64 {
    if buffer_ms < MIN_HOTKEY_BUFFER_MS {
        MIN_HOTKEY_BUFFER_MS
    } else {
        buffer_ms
    }
}

/// The target that the press numbered `ticket` yields when its wait is over: the
/// pending target if no later press came, else nothing.
pub open spec fn fired_target(s: HotkeyState, ticket: u64) -> Option<bool> {
    if s.generation != ticket {
        None
    } else {
        s.pending_target
    }
}

/// The hotkey state after the press numbered `ticket` fired.
pub open spec fn fired_state(s: HotkeyState, ticket: u64) -> HotkeyState {
    if s.generation != ticket {
        s
    } else {
        HotkeyState { pending_target: None, ..s }
    }
}

impl HotkeyState {
    /// No key held, not recording, nothing queued.
    pub fn new() -> (r: Self)
        ensures
            !r.right_alt_pressed,
            !r.actual_recording,
            r.pending_target is None,
            r.generation == 0,
    {
        HotkeyState {
            right_alt_pressed: false,
            actual_recording: false,
            pending_target: None,
            generation: 0,
        }
    }

    /// Handles one keyboard event; `is_right_alt` tells whether it concerns right Alt.
    pub fn on_key_event(&mut self, is_right_alt: bool, transition: KeyTransition) -> (r:
        KeyVerdict)
        ensures
            *final(self) == key_event_state(*old(self), is_right_alt, transition),
            r == key_event_verdict(*old(self), is_right_alt, transition),
    {
        if !is_right_alt {
            return KeyVerdict { swallow: false, toggle: false };
        }
        match transition {
            KeyTransition::Down => {
                self.right_alt_pressed = true;
                KeyVerdict { swallow: true, toggle: false }
            },
            KeyTransition::Up => {
                let was_pressed = self.right_alt_pressed;
                self.right_alt_pressed = false;
                KeyVerdict { swallow: true, toggle: was_pressed }
            },
            KeyTransition::Other => KeyVerdict { swallow: true, toggle: false },
        }
    }

    /// Queues a press: it asks for the opposite of the state that earlier queued
    /// presses asked for, or of the actual state when none is queued.
    pub fn queue_toggle(&mut self, hotkey_buffer_ms: u64) -> (r: ToggleTicket)
        requires
            old(self).generation < u64::MAX,
        ensures
            *final(self) == queued_state(*old(self)),
            r.generation == final(self).generation,
            r.delay_ms == toggle_delay(hotkey_buffer_ms),
    {
        let delay_ms = if hotkey_buffer_ms < MIN_HOTKEY_BUFFER_MS {
            MIN_HOTKEY_BUFFER_MS
        } else {
            hotkey_buffer_ms
        };
        self.generation = self.generation + 1;
        let base = match self.pending_target {
            Some(t) => t,
            None => self.actual_recording,
        };
        self.pending_target = Some(!base);
        ToggleTicket { generation: self.generation, delay_ms }
    }

    /// The press numbered `ticket` waited its delay: yields the target to apply,
    /// unless a later press was queued meanwhile.
    pub fn take_target(&mut self, ticket: u64) -> (r: Option<bool>)
        ensures
            r == fired_target(*old(self), ticket),
            *final(self) == fired_state(*old(self), ticket),
    {
        if self.generation != ticket {
            return None;
        }
        let target = self.pending_target;
        self.pending_target = None;
        target
    }
}

/// Records whether a recording is actually running.
pub fn update_recording_flag(state: &mut HotkeyState, is_recording: bool)
    ensures
        *final(state) == (HotkeyState { actual_recording: is_recording, ..*old(state) }),
{
    state.actual_recording = is_recording;
}

/// The state after `n` presses queued one after another.
pub open spec fn presses(s: HotkeyState, n: nat) -> HotkeyState
    decreases n,
{
    if n == 0 {
        s
    } else {
        queued_state(presses(s, (n - 1) as nat))
    }
}

/// Presses queued within one wait toggle the target: when nothing was queued
/// before, `n > 0` presses ask for the current recording state flipped `n` times,
/// so an even number of quick presses changes nothing.
pub proof fn law_quick_presses_alternate(s: HotkeyState, n: nat)
    requires
        s.pending_target is None,
        s.generation + n <= u64::MAX,
        n > 0,
    ensures
        presses(s, n).pending_target == Some(if n % 2 == 1 {
            !s.actual_recording
        } else {
            s.actual_recording
        }),
        presses(s, n).generation == s.generation + n,
        presses(s, n).actual_recording == s.actual_recording,
    decreases n,
{
    assert(presses(s, 0) == s);
    if n > 1 {
        law_quick_presses_alternate(s, (n - 1) as nat);
        assert(presses(s, n) == queued_state(presses(s, (n - 1) as nat)));
    } else {
        assert(presses(s, 1) == queued_state(presses(s, 0)));
    }
}

/// Only the last of several quick presses acts: the earlier presses' timers find a
/// newer press and yield nothing, and the last one yields the pending target.
pub proof fn law_only_last_press_fires(s: HotkeyState, n: nat, k: nat)
    requires
        s.pending_target is None,
        s.generation + n <= u64::MAX,
        0 < k < n,
    ensures
        fired_target(presses(s, n), (s.generation + k) as u64) is None,
        fired_target(presses(s, n), (s.generation + n) as u64) == presses(s, n).pending_target,
{
    law_quick_presses_alternate(s, n);
}

/// Quick presses apply exactly one target: the timers of all presses but the
/// last find a newer press and change nothing, and the last one yields the
/// recording state flipped once per press and clears the queue.
pub proof fn law_quick_presses_apply_once(s: HotkeyState, n: nat)
    requires
        s.pending_target is None,
        s.generation + n <= u64::MAX,
        n > 0,
    ensures
        forall|k: nat|
            #![trigger fired_target(presses(s, n), (s.generation + k) as u64)]
            0 < k < n ==> fired_target(presses(s, n), (s.generation + k) as u64) is None
                && fired_state(presses(s, n), (s.generation + k) as u64) == presses(s, n),
        fired_target(presses(s, n), (s.generation + n) as u64) == Some(
            s.actual_recording != (n % 2 == 1),
        ),
        fired_state(presses(s, n), (s.generation + n) as u64).pending_target is None,
        fired_state(presses(s, n), (s.generation + n) as u64).actual_recording
            == s.actual_recording,
{
    law_quick_presses_alternate(s, n);
}

/// After the recording flag is set, a press with nothing queued asks for the
/// opposite of that flag.
pub proof fn law_flag_decides_next_press(s: HotkeyState, is_recording: bool)
    requires
        s.pending_target is None,
    ensures
        queued_state(HotkeyState { actual_recording: is_recording, ..s }).pending_target == Some(
            !is_recording,
        ),
{
}

/// A right-Alt press and release asks for exactly one toggle, and a release with
/// no press seen asks for none.
pub proof fn law_right_alt_click_toggles_once(s: HotkeyState)
    ensures
        !key_event_verdict(s, true, KeyTransition::Down).toggle,
        key_event_verdict(
            key_event_state(s, true, KeyTransition::Down),
            true,
            KeyTransition::Up,
        ).toggle,
        !key_event_verdict(
            key_event_state(key_event_state(s, true, KeyTransition::Down), true, KeyTransition::Up),
            true,
            KeyTransition::Up,
        ).toggle,
{
}

} // verus!
