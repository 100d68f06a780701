use std::io::Write;
use typemore::asr::AsrOutput;
use typemore::bootstrap::{plan_zip, BootstrapError, EntryPlan};
use typemore::config::{app_data_dir_in, app_entry_in, AppConfig, ConfigError};
use typemore::control::{pipeline_start, pipeline_step, PipelineStage};
use typemore::deepseek::{repair_request, RepairError};
use typemore::delivery::{
    foreground_accepts_paste, is_editable_kind, is_text_holding_kind, CursorContext,
};
use typemore::events::RecordingState;
use typemore::text::contains;

fn zip_of(entries: &[(&str, bool)]) -> Vec<u8> {
    let mut writer = zip::ZipWriter::new(std::io::Cursor::new(Vec::new()));
    let options = zip::write::SimpleFileOptions::default()
        .compression_method(zip::CompressionMethod::Stored);
    for (name, is_dir) in entries {
        if *is_dir {
            writer.add_directory(*name, options).unwrap();
        } else {
            writer.start_file(*name, options).unwrap();
            writer.write_all(b"data").unwrap();
        }
    }
    writer.finish().unwrap().into_inner()
}

#[test]
fn application_directory_follows_the_data_directory() {
    assert_eq!(app_data_dir_in(None), Err(ConfigError::MissingDataDir));
    assert_eq!(app_data_dir_in(Some("/home/u/.local/share".to_string())), Ok("/home/u/.local/share/typemore".to_string()));
    assert_eq!(app_data_dir_in(Some("/data/".to_string())), Ok("/data/typemore".to_string()));
    assert_eq!(app_entry_in("/data/typemore", "config.json"), "/data/typemore/config.json");
    assert_eq!(app_entry_in("/data/typemore/", "logs"), "/data/typemore/logs");
}

#[test]
fn downloaded_archive_is_planned_from_its_listing() {
    let bytes = zip_of(&[
        ("Release/", true),
        ("Release/ggml.dll", false),
        ("Release/Whisper-CLI.exe", false),
    ]);
    let (plans, found) = plan_zip(&bytes).ok().unwrap();
    assert_eq!(plans.len(), 3);
    assert!(matches!(plans[0], EntryPlan::Skip));
    match &plans[1] {
        EntryPlan::Extract(name) => assert_eq!(name, "ggml.dll"),
        _ => panic!("expected an extraction"),
    }
    assert!(matches!(plans[2], EntryPlan::CliExecutable));
    assert_eq!(found, Ok(()));

    let without_cli = zip_of(&[("models/", true), ("models/readme.txt", false)]);
    let (plans, found) = plan_zip(&without_cli).ok().unwrap();
    assert_eq!(plans.len(), 2);
    assert_eq!(found, Err(BootstrapError::CliNotInArchive));
}

#[test]
fn unreadable_archive_is_refused() {
    assert_eq!(plan_zip(&b"not a zip archive".to_vec()).err(), Some(BootstrapError::UnreadableArchive));
    assert_eq!(plan_zip(&Vec::new()).err(), Some(BootstrapError::UnreadableArchive));
}

#[test]
fn control_kinds_and_foreground() {
    assert!(contains("ControlType::Edit", "Edit"));
    assert!(contains("abc", ""));
    assert!(!contains("Ed", "Edit"));
    assert!(is_editable_kind("Edit"));
    assert!(is_editable_kind("Document"));
    assert!(!is_editable_kind("Text"));
    assert!(!is_editable_kind("Button"));
    assert!(is_text_holding_kind("Text"));
    assert!(is_text_holding_kind("Edit"));
    assert!(!is_text_holding_kind("Pane"));
    assert!(foreground_accepts_paste(true, 42, 7));
    assert!(!foreground_accepts_paste(true, 7, 7));
    assert!(!foreground_accepts_paste(true, 0, 7));
    assert!(!foreground_accepts_paste(false, 42, 7));
}

#[test]
fn pipeline_stages_follow_one_another() {
    let (stage, announce) = pipeline_start();
    assert_eq!(stage, PipelineStage::Transcribing);
    assert_eq!(announce, RecordingState::LocalTranscribing);

    let s1 = pipeline_step(stage, true);
    assert_eq!((s1.next, s1.announce), (PipelineStage::Repairing, Some(RecordingState::LlmRepairing)));
    assert!(!s1.remove_recording && !s1.clear_recording_flag);
    let s2 = pipeline_step(s1.next, true);
    assert_eq!((s2.next, s2.announce), (PipelineStage::Delivering, Some(RecordingState::Delivering)));
    let s3 = pipeline_step(s2.next, true);
    assert_eq!((s3.next, s3.announce), (PipelineStage::Completed, Some(RecordingState::Completed)));
    assert!(s3.remove_recording && !s3.clear_recording_flag);

    let failed = pipeline_step(PipelineStage::Repairing, false);
    assert_eq!((failed.next, failed.announce), (PipelineStage::Failed, Some(RecordingState::Error)));
    assert!(failed.remove_recording && failed.clear_recording_flag);

    let done = pipeline_step(PipelineStage::Completed, false);
    assert_eq!((done.next, done.announce), (PipelineStage::Completed, None));
    assert!(!done.remove_recording && !done.clear_recording_flag);
}

#[test]
fn blank_key_is_refused_before_any_prompt() {
    let mut config = AppConfig::default();
    config.deepseek_api_key = " \t".into();
    let mut ctx = CursorContext::default();
    ctx.before = "1. item".into();
    ctx.is_in_list = true;
    ctx.follows_numbered_list = true;
    ctx.current_number = Some(u32::MAX);
    let t = AsrOutput { text: "你好".to_string(), segments: vec![] };
    let r = repair_request(&config, &t, "ni hao", &ctx, false, &[]);
    assert_eq!(r.err(), Some(RepairError::MissingApiKey));
}
