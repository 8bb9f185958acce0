use whispercat::keyboard_recorder::KeyboardRecorder;
use whispercat::notifications::{Toast, ToastLevel, ToastManager};
use whispercat::transcription::models::{ModelInfo, get_default_models, whisper_models_from_ids};
use whispercat::transcription::types::{
    ChatChoice, ChatCompletionResponse, ChatMessage, TranscriptionProvider, extract_chat_content,
};
use whispercat::tray::TrayManager;

#[test]
fn test_provider_names() {
    assert_eq!(TranscriptionProvider::OpenAI.as_str(), "OpenAI");
    assert_eq!(TranscriptionProvider::FasterWhisper.as_str(), "Faster-Whisper");
    assert_eq!(TranscriptionProvider::OpenWebUI.as_str(), "Open WebUI");
}

#[test]
fn test_model_info_builder() {
    let model = ModelInfo::new("whisper-1".to_string(), TranscriptionProvider::OpenAI);
    assert_eq!(model.id, "whisper-1");
    assert_eq!(model.name, "whisper-1");

    let named = model.with_name("Whisper".to_string());
    assert_eq!(named.id, "whisper-1");
    assert_eq!(named.name, "Whisper");
}

#[test]
fn test_default_models_per_provider() {
    assert_eq!(get_default_models(TranscriptionProvider::OpenAI).len(), 1);
    let fw = get_default_models(TranscriptionProvider::FasterWhisper);
    assert_eq!(fw.len(), 5);
    assert_eq!(fw[0].id, "Systran/faster-whisper-large-v3");
    assert_eq!(fw[0].name, "Large V3");
    assert_eq!(get_default_models(TranscriptionProvider::OpenWebUI).len(), 1);
}

#[test]
fn test_whisper_model_filter() {
    let ids = vec![
        "gpt-4".to_string(),
        "whisper-1".to_string(),
        "dall-e".to_string(),
        "whisper-large".to_string(),
    ];
    let models = whisper_models_from_ids(ids, TranscriptionProvider::OpenAI);
    assert_eq!(models.len(), 2);
    assert_eq!(models[0].id, "whisper-1");
    assert_eq!(models[1].id, "whisper-large");
}

#[test]
fn test_chat_content_extraction() {
    let response = ChatCompletionResponse {
        choices: vec![ChatChoice {
            message: ChatMessage { role: "assistant".to_string(), content: "done".to_string() },
            finish_reason: Some("stop".to_string()),
        }],
    };
    assert_eq!(extract_chat_content(&response).unwrap(), "done");

    let empty = ChatCompletionResponse { choices: Vec::new() };
    match extract_chat_content(&empty) {
        Err(whispercat::error::WhisperCatError::ApiError { status, message }) => {
            assert_eq!(status, 500);
            assert_eq!(message, "No response from API");
        }
        _ => panic!("an empty response is a 500 service error"),
    }
}

#[test]
fn test_toast_expiry() {
    let toast = Toast::new(ToastLevel::Info, "hi".to_string(), 1000);
    assert!(!toast.is_expired(1000));
    assert!(!toast.is_expired(3999));
    assert!(toast.is_expired(4000));

    let long = Toast::new(ToastLevel::Info, "hi".to_string(), 1000).with_duration(10000);
    assert!(!long.is_expired(4000));
    assert!(long.is_expired(11000));
}

#[test]
fn test_toast_manager_keeps_newest_five() {
    let mut manager = ToastManager::new();
    for i in 0..7 {
        manager.show(ToastLevel::Info, format!("toast {}", i), 0);
    }
    let toasts = manager.toasts();
    assert_eq!(toasts.len(), 5);
    assert_eq!(toasts[0].message, "toast 2");
    assert_eq!(toasts[4].message, "toast 6");
}

#[test]
fn test_toast_manager_drops_expired() {
    let mut manager = ToastManager::new();
    manager.show(ToastLevel::Info, "early".to_string(), 0);
    manager.show(ToastLevel::Info, "late".to_string(), 2000);
    manager.cleanup(3500);

    let toasts = manager.toasts();
    assert_eq!(toasts.len(), 1);
    assert_eq!(toasts[0].message, "late");
}

#[test]
fn test_toast_level_icons_match_logger() {
    assert_eq!(ToastLevel::Info.icon(), "\u{2139}");
    assert_eq!(ToastLevel::Error.icon(), "\u{2717}");
}

#[test]
fn test_tray_stub_reports_nothing() {
    let mut tray = TrayManager::new().unwrap();
    assert!(tray.check_events().is_none());
    tray.update_recording_state(true);
    tray.update_visibility_state(false);
    assert!(tray.check_events().is_none());
}

#[test]
fn test_keyboard_recorder_stub() {
    let mut recorder = KeyboardRecorder::new();
    recorder.start_recording();
    assert!(!recorder.is_recording());
    assert_eq!(recorder.stop_recording(), "");
}

#[test]
fn test_replace_literal_empty_pattern_matches_std() {
    // The verified literal replace agrees with std's str::replace, empty
    // pattern included.
    let ours = whispercat::text::replace_literal("ab", "", "-");
    assert_eq!(ours, "ab".replace("", "-"));
    let plain = whispercat::text::replace_literal("aaa", "aa", "b");
    assert_eq!(plain, "aaa".replace("aa", "b"));
}

#[test]
fn test_clock_formatting() {
    assert_eq!(whispercat::time::format_clock(0), "00:00:00");
    assert_eq!(whispercat::time::format_clock(3661), "01:01:01");
    assert_eq!(whispercat::time::format_clock(86399), "23:59:59");
}
