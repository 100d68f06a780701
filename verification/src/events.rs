//! States and events that the pipeline reports to the user interface.

use vstd::prelude::*;

verus! {

/// Where the dictation pipeline currently is.
#[derive(Clone, Copy, Debug, PartialEq, Eq, Structural)]
pub enum RecordingState {
    Idle,
    Recording,
    LocalTranscribing,
    LlmRepairing,
    Delivering,
    Completed,
    Error,
}

/// A progress report: the new state and a message for the user.
#[derive(Clone, Debug)]
pub struct ProgressEvent {
    pub state: RecordingState,
    pub message: String,
}

/// A failure report: the state to show and the error text.
#[derive(Clone, Debug)]
pub struct ErrorEvent {
    pub state: RecordingState,
    pub error: String,
}

/// How a result reached the user.
#[derive(Clone, Copy, Debug, PartialEq, Eq, Structural)]
pub enum DeliveryMode {
    /// Pasted into the focused application.
    Pasted,
    /// Left on the clipboard only.
    ClipboardOnly,
}

/// The final text and how it was delivered.
#[derive(Clone, Debug)]
pub struct DeliveryResultEvent {
    pub mode: DeliveryMode,
    pub text: String,
}

/// Whether the recording overlay is shown in `state`: while recording and while
/// the result is being produced, and not when idle, done or failed.
pub open spec fn overlay_visible_spec(state: RecordingState) -> bool {
    match state {
        RecordingState::Recording | RecordingState::LocalTranscribing
        | RecordingState::LlmRepairing | RecordingState::Delivering => true,
        RecordingState::Idle | RecordingState::Completed | RecordingState::Error => false,
    }
}

/// Whether the overlay window should be visible in `state`.
pub fn overlay_visible(state: RecordingState) -> (r: bool)
    ensures
        r == overlay_visible_spec(state),
{
    match state {
        RecordingState::Recording | RecordingState::LocalTranscribing
        | RecordingState::LlmRepairing | RecordingState::Delivering => true,
        RecordingState::Idle | RecordingState::Completed | RecordingState::Error => false,
    }
}

} // verus!
