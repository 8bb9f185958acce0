use whispercat::config::Config;
use whispercat::pipeline::{Pipeline, Provider, Unit, UnitId};

#[test]
fn test_config_default() {
    let config = Config::default();

    assert_eq!(config.whisper.provider, "OpenAI");
    assert_eq!(config.whisper.model, "whisper-1");
    assert_eq!(config.audio.sample_rate, 16000);
    assert_eq!(config.audio.channels, 1);
    assert!(config.silence_removal.enabled);
    assert_eq!(config.pipelines.len(), 0);
    assert_eq!(config.last_used_pipeline, None);
}

#[test]
fn test_config_pipeline_crud() {
    let mut config = Config::default();

    let mut pipeline = Pipeline::new("Test Pipeline".to_string());
    pipeline.add_unit(Unit::Prompt {
        id: UnitId::fresh(),
        name: "Test Unit".to_string(),
        provider: Provider::OpenAI,
        model: "gpt-4".to_string(),
        system_prompt: "Test".to_string(),
        user_prompt_template: "{{input}}".to_string(),
    });
    let pipeline_id = pipeline.id;

    config.save_pipeline(pipeline.clone());
    assert_eq!(config.get_pipelines().len(), 1);

    let retrieved = config.get_pipeline(pipeline_id);
    assert!(retrieved.is_some());
    assert_eq!(retrieved.unwrap().name, "Test Pipeline");

    let mut updated_pipeline = pipeline.clone();
    updated_pipeline.name = "Updated Name".to_string();
    config.save_pipeline(updated_pipeline);
    assert_eq!(config.get_pipelines().len(), 1);
    assert_eq!(config.get_pipeline(pipeline_id).unwrap().name, "Updated Name");

    config.delete_pipeline(pipeline_id);
    assert_eq!(config.get_pipelines().len(), 0);
    assert!(config.get_pipeline(pipeline_id).is_none());
}

#[test]
fn test_config_last_used_pipeline() {
    let mut config = Config::default();

    assert_eq!(config.get_last_used_pipeline(), None);

    let pipeline_id = UnitId::fresh();
    config.set_last_used_pipeline(Some(pipeline_id));

    assert_eq!(config.get_last_used_pipeline(), Some(pipeline_id));

    config.set_last_used_pipeline(None);
    assert_eq!(config.get_last_used_pipeline(), None);
}

#[test]
fn test_config_delete_last_used_pipeline() {
    let mut config = Config::default();

    let pipeline = Pipeline::new("Test".to_string());
    let pipeline_id = pipeline.id;

    config.save_pipeline(pipeline);
    config.set_last_used_pipeline(Some(pipeline_id));

    config.delete_pipeline(pipeline_id);

    assert_eq!(config.get_last_used_pipeline(), None);
}

#[test]
fn test_config_multiple_pipelines() {
    let mut config = Config::default();

    for i in 1..=5 {
        let pipeline = Pipeline::new(format!("Pipeline {}", i));
        config.save_pipeline(pipeline);
    }

    assert_eq!(config.get_pipelines().len(), 5);
}

#[test]
fn test_config_whisper_settings() {
    let mut config = Config::default();

    config.whisper.api_key = "test_key".to_string();
    config.whisper.model = "gpt-4".to_string();
    config.whisper.provider = "OpenAI".to_string();

    assert_eq!(config.whisper.api_key, "test_key");
    assert_eq!(config.whisper.model, "gpt-4");
    assert_eq!(config.whisper.provider, "OpenAI");
}

#[test]
fn test_config_audio_settings() {
    let mut config = Config::default();

    config.audio.sample_rate = 44100;
    config.audio.channels = 2;

    assert_eq!(config.audio.sample_rate, 44100);
    assert_eq!(config.audio.channels, 2);
}

#[test]
fn test_config_silence_removal_settings() {
    let mut config = Config::default();

    config.silence_removal.enabled = false;
    config.silence_removal.threshold = 20000;
    config.silence_removal.min_duration_ms = 2000;

    assert!(!config.silence_removal.enabled);
    assert_eq!(config.silence_removal.threshold, 20000);
    assert_eq!(config.silence_removal.min_duration_ms, 2000);
}

#[test]
fn test_config_hotkey_settings() {
    let mut config = Config::default();

    config.hotkeys.record_toggle = "Ctrl+Alt+R".to_string();

    assert_eq!(config.hotkeys.record_toggle, "Ctrl+Alt+R");
}

#[test]
fn test_config_ui_settings() {
    let mut config = Config::default();

    config.ui.auto_paste = true;
    config.ui.theme = "Light".to_string();

    assert!(config.ui.auto_paste);
    assert_eq!(config.ui.theme, "Light");
}

#[test]
fn test_config_provider_urls() {
    let mut config = Config::default();

    config.whisper.faster_whisper_url = Some("http://localhost:8000".to_string());
    config.whisper.openwebui_url = Some("http://localhost:8080".to_string());
    config.whisper.openwebui_api_key = Some("test_key".to_string());

    assert_eq!(config.whisper.faster_whisper_url, Some("http://localhost:8000".to_string()));
    assert_eq!(config.whisper.openwebui_url, Some("http://localhost:8080".to_string()));
    assert_eq!(config.whisper.openwebui_api_key, Some("test_key".to_string()));
}

#[test]
fn test_config_delete_unit_cascades_references() {
    let mut config = Config::default();

    let unit = whispercat::pipeline::ProcessingUnit::new(
        "strip".to_string(),
        whispercat::pipeline::UnitType::TextReplacement {
            find: "a".to_string(),
            replace: "b".to_string(),
            regex: false,
            case_sensitive: true,
        },
    );
    let unit_id = unit.id;
    config.save_processing_unit(unit);

    let mut pipeline = Pipeline::new("uses it".to_string());
    pipeline.add_unit_ref(unit_id);
    let pipeline_id = pipeline.id;
    config.save_pipeline(pipeline);

    assert_eq!(config.get_pipeline(pipeline_id).unwrap().unit_refs.len(), 1);

    config.delete_processing_unit(unit_id);

    assert!(config.get_processing_unit(unit_id).is_none());
    assert_eq!(config.get_pipeline(pipeline_id).unwrap().unit_refs.len(), 0);
}

#[test]
fn test_config_unit_upsert_replaces_in_place() {
    let mut config = Config::default();

    let unit = whispercat::pipeline::ProcessingUnit::new(
        "first".to_string(),
        whispercat::pipeline::UnitType::TextReplacement {
            find: "x".to_string(),
            replace: "y".to_string(),
            regex: false,
            case_sensitive: true,
        },
    );
    let unit_id = unit.id;
    config.save_processing_unit(unit.clone());
    assert_eq!(config.get_processing_units().len(), 1);

    let mut renamed = unit;
    renamed.name = "second".to_string();
    config.save_processing_unit(renamed);

    assert_eq!(config.get_processing_units().len(), 1);
    assert_eq!(config.get_processing_unit(unit_id).unwrap().name, "second");
}
