//! The decisions of the recording controls: what a hotkey press, a tray menu item
//! or a retry request does, and what the user is told while a recording is
//! processed.

use vstd::prelude::*;
use crate::events::{DeliveryMode, DeliveryResultEvent, ErrorEvent, ProgressEvent, RecordingState};
use crate::pipeline::PipelineInput;
use crate::text::to_owned;

verus! {

/// What to do with the recorder.
#[derive(Clone, Copy, Debug, PartialEq, Eq, Structural)]
pub enum RecordingAction {
    Start,
    Stop,
    Nothing,
}

/// Whether a recording runs after `action`, given whether one ran before.
pub open spec fn recording_after(action: RecordingAction, is_recording: bool) -> bool {
    match action {
        RecordingAction::Start => true,
        RecordingAction::Stop => false,
        RecordingAction::Nothing => is_recording,
    }
}

/// A hotkey toggle: stop a running recording, else start one.
pub fn toggle_action(is_recording: bool) -> (r: RecordingAction)
    ensures
        r == (if is_recording {
            RecordingAction::Stop
        } else {
            RecordingAction::Start
        }),
{
    if is_recording {
        RecordingAction::Stop
    } else {
        RecordingAction::Start
    }
}

/// Bringing the recorder to `target`: start or stop only when it is not there yet.
pub fn target_action(target: bool, is_recording: bool) -> (r: RecordingAction)
    ensures
        r == (if target && !is_recording {
            RecordingAction::Start
        } else if !target && is_recording {
            RecordingAction::Stop
        } else {
            RecordingAction::Nothing
        }),
{
    if target && !is_recording {
        RecordingAction::Start
    } else if !target && is_recording {
        RecordingAction::Stop
    } else {
        RecordingAction::Nothing
    }
}

/// Applying a target reaches it, acting only when needed; a toggle always flips
/// the recorder.
pub proof fn law_target_is_reached(target: bool, is_recording: bool)
    ensures
        recording_after(
            if target && !is_recording {
                RecordingAction::Start
            } else if !target && is_recording {
                RecordingAction::Stop
            } else {
                RecordingAction::Nothing
            },
            is_recording,
        ) == target,
        recording_after(
            if is_recording {
                RecordingAction::Stop
            } else {
                RecordingAction::Start
            },
            is_recording,
        ) == !is_recording,
{
}

/// Why a control request was refused.
#[derive(Clone, Copy, Debug, PartialEq, Eq, Structural)]
pub enum ControlError {
    /// A stop was asked for while no recording runs.
    RecordingNotActive,
    /// A retry was asked for before any recording was made.
    NoPreviousRecording,
}

/// Starting: only when no recording runs already (then nothing happens).
pub fn start_request(is_recording: bool) -> (r: RecordingAction)
    ensures
        r == (if is_recording {
            RecordingAction::Nothing
        } else {
            RecordingAction::Start
        }),
{
    if is_recording {
        RecordingAction::Nothing
    } else {
        RecordingAction::Start
    }
}

/// Stopping: refused when no recording runs.
pub fn stop_request(is_recording: bool) -> (r: Result<RecordingAction, ControlError>)
    ensures
        is_recording ==> r == Ok::<RecordingAction, ControlError>(RecordingAction::Stop),
        !is_recording ==> r == Err::<RecordingAction, ControlError>(
            ControlError::RecordingNotActive,
        ),
{
    if is_recording {
        Ok(RecordingAction::Stop)
    } else {
        Err(ControlError::RecordingNotActive)
    }
}

/// Processing the last recording again, if there is one.
pub fn retry_input(last_input: Option<String>) -> (r: Result<PipelineInput, ControlError>)
    ensures
        match last_input {
            Some(p) => r matches Ok(input) && input.wav_path@ == p@,
            None => r matches Err(ControlError::NoPreviousRecording),
        },
{
    match last_input {
        Some(wav_path) => Ok(PipelineInput { wav_path }),
        None => Err(ControlError::NoPreviousRecording),
    }
}

/// The tray menu's commands.
#[derive(Clone, Copy, Debug, PartialEq, Eq, Structural)]
pub enum TrayAction {
    ShowSettings,
    StartRecording,
    StopRecording,
    Quit,
    Ignore,
}

/// The command of the tray menu item `id`.
pub fn tray_action(id: &str) -> (r: TrayAction)
    ensures
        id@ == "show"@ ==> r == TrayAction::ShowSettings,
        id@ == "start"@ ==> r == TrayAction::StartRecording,
        id@ == "stop"@ ==> r == TrayAction::StopRecording,
        id@ == "quit"@ ==> r == TrayAction::Quit,
        id@ != "show"@ && id@ != "start"@ && id@ != "stop"@ && id@ != "quit"@ ==> r
            == TrayAction::Ignore,
{
    proof {
        reveal_strlit("show");
        reveal_strlit("start");
        reveal_strlit("stop");
        reveal_strlit("quit");
        assert("start"@[1] != "show"@[1]);
        assert("stop"@[1] != "show"@[1]);
        assert("quit"@[0] != "show"@[0]);
        assert("stop"@.len() != "start"@.len());
        assert("quit"@[0] != "start"@[0]);
        assert("quit"@[0] != "stop"@[0]);
    }
    if crate::text::str_eq(id, "show") {
        TrayAction::ShowSettings
    } else if crate::text::str_eq(id, "start") {
        TrayAction::StartRecording
    } else if crate::text::str_eq(id, "stop") {
        TrayAction::StopRecording
    } else if crate::text::str_eq(id, "quit") {
        TrayAction::Quit
    } else {
        TrayAction::Ignore
    }
}

/// The message shown with a state, for the states that have a fixed one.
pub open spec fn progress_message_spec(state: RecordingState) -> Option<Seq<char>> {
    match state {
        RecordingState::Idle => Some("按右 Alt 开始录音，再按一次结束录音。"@),
        RecordingState::Recording => Some("录音中，按右 Alt 或点击停止结束。"@),
        RecordingState::LocalTranscribing => Some("本地模型正在转写语音。"@),
        RecordingState::LlmRepairing => Some("正在用 DeepSeek 修正拼音和语义。"@),
        RecordingState::Delivering => Some("正在投递结果到当前光标或剪贴板。"@),
        RecordingState::Completed => Some("转写完成。"@),
        RecordingState::Error => None,
    }
}

/// The progress report for entering `state`, for the states with a fixed message.
pub fn progress_for(state: RecordingState) -> (r: Option<ProgressEvent>)
    ensures
        match progress_message_spec(state) {
            Some(m) => r matches Some(e) && e.state == state && e.message@ == m,
            None => r is None,
        },
{
    let message = match state {
        RecordingState::Idle => "按右 Alt 开始录音，再按一次结束录音。",
        RecordingState::Recording => "录音中，按右 Alt 或点击停止结束。",
        RecordingState::LocalTranscribing => "本地模型正在转写语音。",
        RecordingState::LlmRepairing => "正在用 DeepSeek 修正拼音和语义。",
        RecordingState::Delivering => "正在投递结果到当前光标或剪贴板。",
        RecordingState::Completed => "转写完成。",
        RecordingState::Error => {
            return None;
        },
    };
    Some(ProgressEvent { state, message: to_owned(message) })
}

/// What follows a successful run of the pipeline.
pub struct PipelineSuccess {
    /// The text to remember as the last output.
    pub last_output: String,
    /// The delivery report.
    pub delivery: DeliveryResultEvent,
    /// Whether to notify the user that the result waits on the clipboard.
    pub notify_clipboard: bool,
    /// The closing progress report.
    pub progress: ProgressEvent,
}

/// The reports after the pipeline delivered `final_text` in `mode`: the result is
/// remembered and reported, a clipboard-only delivery is notified, and the run
/// ends as completed.
pub fn pipeline_succeeded(mode: DeliveryMode, final_text: &str) -> (r: PipelineSuccess)
    ensures
        r.last_output@ == final_text@,
        r.delivery.mode == mode,
        r.delivery.text@ == final_text@,
        r.notify_clipboard == (mode == DeliveryMode::ClipboardOnly),
        r.progress.state == RecordingState::Completed,
        r.progress.message@ == "转写完成。"@,
{
    PipelineSuccess {
        last_output: to_owned(final_text),
        delivery: DeliveryResultEvent { mode, text: to_owned(final_text) },
        notify_clipboard: match mode {
            DeliveryMode::ClipboardOnly => true,
            DeliveryMode::Pasted => false,
        },
        progress: ProgressEvent { state: RecordingState::Completed, message: to_owned("转写完成。") },
    }
}

/// The report after the pipeline failed with `error`: the run ends in the error
/// state with the error's text.
pub fn pipeline_failed(error: &str) -> (r: ErrorEvent)
    ensures
        r.state == RecordingState::Error,
        r.error@ == error@,
{
    ErrorEvent { state: RecordingState::Error, error: to_owned(error) }
}


/// Where a run of the pipeline is.
#[derive(Clone, Copy, Debug, PartialEq, Eq, Structural)]
pub enum PipelineStage {
    Transcribing,
    Repairing,
    Delivering,
    Completed,
    Failed,
}

/// What follows the end of a stage: the next stage, the state to announce when
/// entering it, and the clean-up to do.
#[derive(Clone, Copy, Debug, PartialEq, Eq, Structural)]
pub struct StageStep {
    pub next: PipelineStage,
    pub announce: Option<RecordingState>,
    /// Remove the recording's temporary file.
    pub remove_recording: bool,
    /// Note that no recording is running.
    pub clear_recording_flag: bool,
}

/// The step after `stage` ended, successfully or not: transcription, repair and
/// delivery follow one another, delivery's success completes the run and removes
/// the recording, and any failure ends the run in the error state, removes the
/// recording and clears the recording flag. A finished run stays as it is.
pub open spec fn stage_step_spec(stage: PipelineStage, succeeded: bool) -> StageStep {
    let stay = StageStep {
        next: stage,
        announce: None,
        remove_recording: false,
        clear_recording_flag: false,
    };
    let fail = StageStep {
        next: PipelineStage::Failed,
        announce: Some(RecordingState::Error),
        remove_recording: true,
        clear_recording_flag: true,
    };
    match stage {
        PipelineStage::Transcribing => if succeeded {
            StageStep { next: PipelineStage::Repairing, announce: Some(RecordingState::LlmRepairing), ..stay }
        } else {
            fail
        },
        PipelineStage::Repairing => if succeeded {
            StageStep { next: PipelineStage::Delivering, announce: Some(RecordingState::Delivering), ..stay }
        } else {
            fail
        },
        PipelineStage::Delivering => if succeeded {
            StageStep {
                next: PipelineStage::Completed,
                announce: Some(RecordingState::Completed),
                remove_recording: true,
                clear_recording_flag: false,
            }
        } else {
            fail
        },
        PipelineStage::Completed | PipelineStage::Failed => stay,
    }
}

/// A run starts with the local transcription, announced as such.
pub fn pipeline_start() -> (r: (PipelineStage, RecordingState))
    ensures
        r == (PipelineStage::Transcribing, RecordingState::LocalTranscribing),
{
    (PipelineStage::Transcribing, RecordingState::LocalTranscribing)
}

/// The step after `stage` ended.
pub fn pipeline_step(stage: PipelineStage, succeeded: bool) -> (r: StageStep)
    ensures
        r == stage_step_spec(stage, succeeded),
{
    let stay = StageStep {
        next: stage,
        announce: None,
        remove_recording: false,
        clear_recording_flag: false,
    };
    let fail = StageStep {
        next: PipelineStage::Failed,
        announce: Some(RecordingState::Error),
        remove_recording: true,
        clear_recording_flag: true,
    };
    match stage {
        PipelineStage::Transcribing => if succeeded {
            StageStep { next: PipelineStage::Repairing, announce: Some(RecordingState::LlmRepairing), ..stay }
        } else {
            fail
        },
        PipelineStage::Repairing => if succeeded {
            StageStep { next: PipelineStage::Delivering, announce: Some(RecordingState::Delivering), ..stay }
        } else {
            fail
        },
        PipelineStage::Delivering => if succeeded {
            StageStep {
                next: PipelineStage::Completed,
                announce: Some(RecordingState::Completed),
                remove_recording: true,
                clear_recording_flag: false,
            }
        } else {
            fail
        },
        PipelineStage::Completed | PipelineStage::Failed => stay,
    }
}

/// The stage reached from `stage` after the outcomes `outcomes`, and how many
/// times the recording was removed on the way.
pub open spec fn run_pipeline(stage: PipelineStage, outcomes: Seq<bool>) -> (PipelineStage, nat)
    decreases outcomes.len(),
{
    if outcomes.len() == 0 {
        (stage, 0)
    } else {
        let step = stage_step_spec(stage, outcomes[0]);
        let (last, removed) = run_pipeline(step.next, outcomes.drop_first());
        (last, removed + if step.remove_recording { 1nat } else { 0nat })
    }
}

/// A run ends after at most three outcomes, completed exactly when all three
/// stages succeed; however it ends, the recording is removed exactly once.
pub proof fn law_pipeline_removes_recording_once(outcomes: Seq<bool>)
    requires
        outcomes.len() >= 3,
    ensures
        run_pipeline(PipelineStage::Transcribing, outcomes).0 == (if outcomes[0] && outcomes[1]
            && outcomes[2] {
            PipelineStage::Completed
        } else {
            PipelineStage::Failed
        }),
        run_pipeline(PipelineStage::Transcribing, outcomes).1 == 1,
{
    let rest1 = outcomes.drop_first();
    let rest2 = rest1.drop_first();
    let rest3 = rest2.drop_first();
    lemma_run_step(PipelineStage::Transcribing, outcomes);
    if !outcomes[0] {
        lemma_finished_stays(PipelineStage::Failed, rest1);
    } else {
        assert(rest1[0] == outcomes[1]);
        lemma_run_step(PipelineStage::Repairing, rest1);
        if !outcomes[1] {
            lemma_finished_stays(PipelineStage::Failed, rest2);
        } else {
            assert(rest2[0] == outcomes[2]);
            lemma_run_step(PipelineStage::Delivering, rest2);
            if outcomes[2] {
                lemma_finished_stays(PipelineStage::Completed, rest3);
            } else {
                lemma_finished_stays(PipelineStage::Failed, rest3);
            }
        }
    }
}

proof fn lemma_run_step(stage: PipelineStage, outcomes: Seq<bool>)
    requires
        outcomes.len() > 0,
    ensures
        run_pipeline(stage, outcomes).0 == run_pipeline(
            stage_step_spec(stage, outcomes[0]).next,
            outcomes.drop_first(),
        ).0,
        run_pipeline(stage, outcomes).1 == run_pipeline(
            stage_step_spec(stage, outcomes[0]).next,
            outcomes.drop_first(),
        ).1 + if stage_step_spec(stage, outcomes[0]).remove_recording {
            1nat
        } else {
            0nat
        },
{
}

proof fn lemma_finished_stays(stage: PipelineStage, outcomes: Seq<bool>)
    requires
        stage == PipelineStage::Completed || stage == PipelineStage::Failed,
    ensures
        run_pipeline(stage, outcomes) == (stage, 0nat),
    decreases outcomes.len(),
{
    if outcomes.len() > 0 {
        lemma_finished_stays(stage, outcomes.drop_first());
    }
}

} // verus!
