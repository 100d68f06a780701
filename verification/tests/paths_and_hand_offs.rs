use typemore::asr::transcript_output_name;
use typemore::bootstrap::zip_entry_file_name;
use typemore::config::{app_data_dir_in, app_entry_in, app_entry_path_in, resource_file_in, ConfigError};
use typemore::deepseek::{DEEPSEEK_CHAT_URL, DEEPSEEK_MODEL, DEEPSEEK_STREAM};
use typemore::hotkey::{update_recording_flag, HotkeyState};
use typemore::pinyin_hint::build_pinyin_hint;
use typemore::pipeline::finish_repair;

#[test]
fn locations_follow_a_given_data_directory() {
    assert_eq!(app_data_dir_in(Some("/home/a".to_string())), Ok("/home/a/typemore".to_string()));
    assert_eq!(app_entry_in("", "typemore"), "typemore");
    assert_eq!(app_entry_path_in(None, "config.json"), Err(ConfigError::MissingDataDir));
    assert_eq!(
        app_entry_path_in(Some("/d".to_string()), "config.json"),
        Ok("/d/typemore/config.json".to_string())
    );
    assert_eq!(
        app_entry_path_in(Some("/d/".to_string()), "logs"),
        Ok("/d/typemore/logs".to_string())
    );
    assert_eq!(
        resource_file_in(Some("/d".to_string()), "models", "ggml-small.bin"),
        Ok("/d/typemore/resources/models/ggml-small.bin".to_string())
    );
    assert_eq!(resource_file_in(None, "models", "ggml-base.bin"), Err(ConfigError::MissingDataDir));
}

#[test]
fn entry_names_read_as_path_components() {
    assert_eq!(zip_entry_file_name("bin\\whisper-cli.exe/."), "whisper-cli.exe");
    assert_eq!(zip_entry_file_name("bin/whisper-cli.exe//"), "whisper-cli.exe");
    assert_eq!(zip_entry_file_name("Release/"), "Release");
    assert_eq!(zip_entry_file_name("bin/.."), "");
    assert_eq!(zip_entry_file_name("/"), "");
    assert_eq!(zip_entry_file_name("./"), "");
    assert_eq!(zip_entry_file_name("a/.hidden"), ".hidden");
}

#[test]
fn pinyin_hint_has_one_token_per_character() {
    for text in ["你好 世界", "拼音a", "a", " ", "日本語テキスト"] {
        let hint = build_pinyin_hint(text);
        assert_eq!(hint.split(' ').count(), text.chars().count(), "{}", text);
    }
    assert_eq!(build_pinyin_hint("你好 a"), "ni hao / a");
}

#[test]
fn repair_result_passes_the_text_or_the_failure_on() {
    assert_eq!(
        finish_repair::<String>("ni hao".to_string(), Ok("你好".to_string())),
        Ok(("ni hao".to_string(), "你好".to_string()))
    );
    assert_eq!(
        finish_repair("ni hao".to_string(), Err("timeout".to_string())),
        Err("timeout".to_string())
    );
}

#[test]
fn recognizer_output_name_and_model_request() {
    assert_eq!(transcript_output_name("1234-abcd"), "transcript-1234-abcd");
    assert_eq!(DEEPSEEK_MODEL, "deepseek-v4-flash");
    assert_eq!(DEEPSEEK_CHAT_URL, "https://api.deepseek.com/chat/completions");
    assert!(!DEEPSEEK_STREAM);
}

#[test]
fn flag_then_press_asks_for_the_opposite() {
    for flag in [true, false] {
        let mut s = HotkeyState::new();
        update_recording_flag(&mut s, flag);
        let t = s.queue_toggle(0);
        assert_eq!(t.delay_ms, 50);
        assert_eq!(s.take_target(t.generation), Some(!flag));
        assert_eq!(s.pending_target, None);
    }
}
