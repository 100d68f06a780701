use typemore::asr::{check_transcribe_paths, check_sidecar_exit, transcript_from_text, whisper_args, AsrError, AsrOutput};
use typemore::bootstrap::{
    apply_bootstrap_result, eq_ignore_ascii_case, find_whisper_asset, plan_archive, plan_zip_entry,
    resolve_model_path, zip_entry_file_name, BootstrapError, BootstrapResult, EntryPlan, GithubAsset,
};
use typemore::config::{
    app_data_dir, bundled_whisper_cli_path, bundled_whisper_model_path,
    bundled_whisper_speed_model_path, config_path, logs_dir, resources_dir, temp_dir, AppConfig,
    AsrProfile, PromptStyle,
};
use typemore::control::{
    pipeline_failed, pipeline_succeeded, progress_for, retry_input, start_request, stop_request,
    target_action, toggle_action, tray_action, ControlError, RecordingAction, TrayAction,
};
use typemore::delivery::{ClipboardHistory, DeliveryStep};
use typemore::events::{overlay_visible, DeliveryMode, RecordingState};
use typemore::pipeline::{deliver_text, repair_text, RepairOutcome};

#[test]
fn default_settings() {
    let c = AppConfig::default();
    assert_eq!(c.language, "zh");
    assert_eq!(c.hotkey_buffer_ms, 300);
    assert!(c.auto_paste);
    assert_eq!(c.asr_profile, AsrProfile::Standard);
    assert_eq!(c.prompt_style, PromptStyle::Default);
    assert!(c.deepseek_api_key.is_empty() && c.microphone_device_id.is_none());
}

#[test]
fn file_locations_lie_in_the_application_directory() {
    let base = app_data_dir().ok().unwrap();
    assert!(base.ends_with("typemore"));
    let sep_ok = |p: &str, tail: &str| {
        p.starts_with(base.as_str()) && p.ends_with(tail) && p.len() == base.len() + 1 + tail.len()
    };
    assert!(sep_ok(&config_path().ok().unwrap(), "config.json"));
    assert!(sep_ok(&logs_dir().ok().unwrap(), "logs"));
    assert!(sep_ok(&temp_dir().ok().unwrap(), "temp"));
    assert!(sep_ok(&resources_dir().ok().unwrap(), "resources"));
    let cli = bundled_whisper_cli_path().ok().unwrap();
    assert!(cli.ends_with("whisper-cli.exe") && cli.contains("whisper.cpp"));
    assert!(bundled_whisper_model_path().ok().unwrap().ends_with("ggml-small.bin"));
    assert!(bundled_whisper_speed_model_path().ok().unwrap().ends_with("ggml-base.bin"));
}

#[test]
fn transcription_inputs_are_checked() {
    assert!(matches!(check_transcribe_paths(" ", "m"), Err(AsrError::SidecarPathEmpty)));
    assert!(matches!(check_transcribe_paths("s", "\t"), Err(AsrError::ModelPathEmpty)));
    assert!(matches!(check_transcribe_paths("", ""), Err(AsrError::SidecarPathEmpty)));
    assert!(check_transcribe_paths("s", "m").is_ok());
}

#[test]
fn recognizer_arguments() {
    assert_eq!(
        whisper_args("model.bin", "in.wav", "zh", "out/transcript-1"),
        vec!["-m", "model.bin", "-f", "in.wav", "-l", "zh", "-nt", "-of", "out/transcript-1", "-otxt"]
    );
}

#[test]
fn recognizer_output_is_trimmed_and_checked() {
    let out = transcript_from_text("  你好 \n").ok().unwrap();
    assert_eq!(out.text, "你好");
    assert!(out.segments.is_empty());
    assert!(matches!(transcript_from_text(" \n "), Err(AsrError::EmptyTranscript)));
    assert!(check_sidecar_exit(true, Some(0), String::new()).is_ok());
    match check_sidecar_exit(false, Some(3), "boom".into()) {
        Err(AsrError::SidecarFailed { code, stderr }) => {
            assert_eq!(code, Some(3));
            assert_eq!(stderr, "boom");
        }
        _ => panic!("expected a failure"),
    }
}

#[test]
fn release_asset_is_found_by_name() {
    let a = |n: &str, u: &str| GithubAsset { name: n.into(), browser_download_url: u.into() };
    let assets = vec![a("other.zip", "u0"), a("whisper-blas-bin-x64.zip", "u1"), a("whisper-blas-bin-x64.zip", "u2")];
    assert_eq!(find_whisper_asset(&assets), Ok("u1".to_string()));
    assert_eq!(find_whisper_asset(&vec![a("x", "y")]), Err(BootstrapError::AssetNotFound));
}

#[test]
fn archive_entries_are_planned() {
    assert!(eq_ignore_ascii_case("Whisper-CLI.EXE", "whisper-cli.exe"));
    assert!(!eq_ignore_ascii_case("whisper-cli.ex", "whisper-cli.exe"));
    assert_eq!(zip_entry_file_name("Release\\whisper-cli.exe"), "whisper-cli.exe");
    assert_eq!(zip_entry_file_name("bin/ggml.dll"), "ggml.dll");
    assert!(matches!(plan_zip_entry("bin", true), EntryPlan::Skip));
    assert!(matches!(plan_zip_entry("WHISPER-CLI.exe", false), EntryPlan::CliExecutable));
    match plan_zip_entry("ggml.dll", false) {
        EntryPlan::Extract(n) => assert_eq!(n, "ggml.dll"),
        _ => panic!("expected an extraction"),
    }
    let names = vec!["Release".to_string(), "ggml.dll".to_string(), "whisper-cli.exe".to_string()];
    let (plans, ok) = plan_archive(&names, &vec![true, false, false]);
    assert_eq!(plans.len(), 3);
    assert!(ok.is_ok());
    let (_, missing) = plan_archive(&names, &vec![true, false, true]);
    assert_eq!(missing, Err(BootstrapError::CliNotInArchive));
}

#[test]
fn settings_follow_the_fetched_resources_and_profile() {
    let mut c = AppConfig::default();
    c.whisper_speed_model_path = "fast.bin".into();
    apply_bootstrap_result(&mut c, &BootstrapResult { whisper_sidecar_path: "cli".into(), whisper_model_path: "small.bin".into() });
    assert_eq!(c.whisper_sidecar_path, "cli");
    assert_eq!(c.whisper_model_path, "small.bin");
    assert_eq!(resolve_model_path(&c), "small.bin");
    c.asr_profile = AsrProfile::Speed;
    assert_eq!(resolve_model_path(&c), "fast.bin");
}

#[test]
fn repair_plans() {
    let mut config = AppConfig::default();
    let short = AsrOutput { text: " ok ".into(), segments: vec![] };
    match repair_text(&config, &short, false, &[]) {
        Ok(plan) => {
            assert_eq!(plan.pinyin_hint, "/ o k /");
            assert!(matches!(plan.outcome, RepairOutcome::Ready(ref t) if t == "ok"));
        }
        Err(_) => panic!("a short transcript needs no model"),
    }
    let long = AsrOutput { text: "你好世界".into(), segments: vec![] };
    assert!(repair_text(&config, &long, false, &[]).is_err());
    config.deepseek_api_key = "SECRET-REDACTED".into();
    match repair_text(&config, &long, true, &[]) {
        Ok(plan) => {
            assert_eq!(plan.pinyin_hint, "ni hao shi jie");
            match plan.outcome {
                RepairOutcome::AskModel(m) => {
                    assert!(m.system.ends_with("特别注意可能存在同音字错误。"));
                    assert!(m.user.contains("拼音提示：\nni hao shi jie"));
                }
                RepairOutcome::Ready(_) => panic!("expected a model request"),
            }
        }
        Err(_) => panic!("expected a plan"),
    }
}

#[test]
fn delivery_follows_the_auto_paste_setting() {
    let mut config = AppConfig::default();
    config.auto_paste = false;
    let mut h = ClipboardHistory::new();
    let d = deliver_text(&config, &mut h, "hi", 7);
    assert!(!d.auto_paste);
    assert_eq!(d.step, DeliveryStep::OpenClipboard);
    assert_eq!(h.entries[0].text, "hi");
    assert_eq!(h.entries[0].timestamp, 7);
}

#[test]
fn recording_controls() {
    assert_eq!(toggle_action(true), RecordingAction::Stop);
    assert_eq!(toggle_action(false), RecordingAction::Start);
    assert_eq!(target_action(true, false), RecordingAction::Start);
    assert_eq!(target_action(false, true), RecordingAction::Stop);
    assert_eq!(target_action(true, true), RecordingAction::Nothing);
    assert_eq!(target_action(false, false), RecordingAction::Nothing);
    assert_eq!(start_request(true), RecordingAction::Nothing);
    assert_eq!(start_request(false), RecordingAction::Start);
    assert_eq!(stop_request(false), Err(ControlError::RecordingNotActive));
    assert_eq!(stop_request(true), Ok(RecordingAction::Stop));
    assert_eq!(retry_input(None).err(), Some(ControlError::NoPreviousRecording));
    assert_eq!(retry_input(Some("a.wav".into())).ok().unwrap().wav_path, "a.wav");
}

#[test]
fn tray_menu() {
    assert_eq!(tray_action("show"), TrayAction::ShowSettings);
    assert_eq!(tray_action("start"), TrayAction::StartRecording);
    assert_eq!(tray_action("stop"), TrayAction::StopRecording);
    assert_eq!(tray_action("quit"), TrayAction::Quit);
    assert_eq!(tray_action("other"), TrayAction::Ignore);
}

#[test]
fn progress_reports_and_overlay() {
    assert_eq!(progress_for(RecordingState::Completed).unwrap().message, "转写完成。");
    assert_eq!(progress_for(RecordingState::LocalTranscribing).unwrap().message, "本地模型正在转写语音。");
    assert!(progress_for(RecordingState::Error).is_none());
    for s in [RecordingState::Recording, RecordingState::LocalTranscribing, RecordingState::LlmRepairing, RecordingState::Delivering] {
        assert!(overlay_visible(s));
    }
    for s in [RecordingState::Idle, RecordingState::Completed, RecordingState::Error] {
        assert!(!overlay_visible(s));
    }
    let ok = pipeline_succeeded(DeliveryMode::ClipboardOnly, "done");
    assert!(ok.notify_clipboard);
    assert_eq!(ok.delivery.text, "done");
    assert_eq!(ok.progress.state, RecordingState::Completed);
    assert!(!pipeline_succeeded(DeliveryMode::Pasted, "done").notify_clipboard);
    let e = pipeline_failed("bad");
    assert_eq!(e.state, RecordingState::Error);
    assert_eq!(e.error, "bad");
}
