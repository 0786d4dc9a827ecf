use text2audio::client::{Client, Model, TtsConfig};
use text2audio::config::Voice;
use text2audio::error::Error;

#[test]
fn test_model_as_str() {
    assert_eq!(Model::GLM4_7.as_str(), "glm-4.7");
    assert_eq!(Model::GLM4_6.as_str(), "glm-4.6");
    assert_eq!(Model::GLM4_5.as_str(), "glm-4.5");
    assert_eq!(Model::GLM4_5Flash.as_str(), "glm-4.5-flash");
    assert_eq!(Model::GLM4_5Air.as_str(), "glm-4.5-air");
}

#[test]
fn test_model_default() {
    assert_eq!(Model::default(), Model::GLM4_5Flash);
}

#[test]
fn test_tts_config_default() {
    let config = TtsConfig::default();
    assert!(matches!(config.voice, Voice::Tongtong));
    assert_eq!(config.speed, 100);
    assert_eq!(config.volume, 100);
}

#[test]
fn test_client_new() {
    let client = Client::new("test_key");
    assert_eq!(client.api_key, "test_key");
    assert_eq!(client.model, Model::default());
    assert!(!client.thinking);
    assert!(!client.coding_plan);
}

#[test]
fn test_client_with_model() {
    let client = Client::new("test_key").with_model(Model::GLM4_7);
    assert_eq!(client.model, Model::GLM4_7);
}

#[test]
fn test_client_with_thinking() {
    let client = Client::new("test_key").with_thinking(true);
    assert!(client.thinking);
}

#[test]
fn test_client_with_coding_plan() {
    let client = Client::new("test_key").with_coding_plan(true);
    assert!(client.coding_plan);
}

#[test]
fn test_client_chaining() {
    let client = Client::new("test_key")
        .with_model(Model::GLM4_6)
        .with_thinking(true)
        .with_coding_plan(true);

    assert_eq!(client.model, Model::GLM4_6);
    assert!(client.thinking);
    assert!(client.coding_plan);
}

#[test]
fn test_uses_thinking_only_on_supporting_models() {
    assert!(Client::new("k").with_model(Model::GLM4_7).with_thinking(true).uses_thinking());
    assert!(Client::new("k").with_model(Model::GLM4_6).with_thinking(true).uses_thinking());
    assert!(Client::new("k").with_model(Model::GLM4_5).with_thinking(true).uses_thinking());
    assert!(!Client::new("k").with_model(Model::GLM4_5Flash).with_thinking(true).uses_thinking());
    assert!(!Client::new("k").with_model(Model::GLM4_5Air).with_thinking(true).uses_thinking());
    assert!(!Client::new("k").with_model(Model::GLM4_7).uses_thinking());
}

#[test]
fn test_chat_content_present() {
    let r = Client::chat_content(Some("split here".to_string())).unwrap();
    assert_eq!(r, "split here");
}

#[test]
fn test_chat_content_absent_is_ai_api_error() {
    let e = Client::chat_content(None).unwrap_err();
    match e {
        Error::AiApi(m) => assert_eq!(m, "Invalid AI response format"),
        other => panic!("unexpected error: {:?}", other),
    }
}

#[test]
fn test_tts_audio_nonempty() {
    let r = Client::tts_audio(vec![1, 2, 3]).unwrap();
    assert_eq!(r, vec![1, 2, 3]);
}

#[test]
fn test_tts_audio_empty_is_tts_api_error() {
    let e = Client::tts_audio(vec![]).unwrap_err();
    match e {
        Error::TtsApi(m) => assert_eq!(m, "Received empty audio data"),
        other => panic!("unexpected error: {:?}", other),
    }
}

#[test]
fn test_voice_default() {
    assert_eq!(Voice::default(), Voice::Tongtong);
}

#[test]
fn test_voice_as_str() {
    assert_eq!(Voice::Tongtong.as_str(), "Tongtong");
    assert_eq!(Voice::Chuichui.as_str(), "Chuichui");
}

#[test]
fn test_voice_display() {
    assert_eq!(Voice::Jam.display_string(), "Jam");
}
