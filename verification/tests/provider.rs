use soniox_asr::config::AsrConfig;
use soniox_asr::event::AsrEvent;
use soniox_asr::message::{DEFAULT_MODEL, DEFAULT_URL};
use soniox_asr::provider::SonioxAsrProvider;

#[test]
fn provider_creation() {
    let p = SonioxAsrProvider::new();
    assert!(!p.connected);
    assert!(!p.input_finished);
    assert!(p.final_text.is_empty());
}

#[test]
fn language_hints_maps_locale() {
    let config = AsrConfig {
        language: Some("zh-CN".into()),
        ..Default::default()
    };
    assert_eq!(SonioxAsrProvider::language_hints(&config), vec!["zh"]);

    let config = AsrConfig {
        language: Some("en_US".into()),
        ..Default::default()
    };
    assert_eq!(SonioxAsrProvider::language_hints(&config), vec!["en"]);

    let config = AsrConfig {
        language: Some("ja".into()),
        ..Default::default()
    };
    assert_eq!(SonioxAsrProvider::language_hints(&config), vec!["ja"]);
}

#[test]
fn language_hints_auto_is_empty() {
    for lang in [
        None,
        Some("".into()),
        Some("auto".into()),
        Some("AUTO".into()),
    ] {
        let config = AsrConfig {
            language: lang,
            ..Default::default()
        };
        assert!(SonioxAsrProvider::language_hints(&config).is_empty());
    }
}

#[test]
fn build_config_message_defaults() {
    let config = AsrConfig {
        api_key: "test-key".into(),
        url: String::new(),
        app_key: String::new(),
        language: None,
        sample_rate_hz: 16000,
        hotwords: Vec::new(),
        ..Default::default()
    };
    let body = SonioxAsrProvider::build_config_message(&config, "test-key");
    assert_eq!(body["api_key"], "test-key");
    assert_eq!(body["model"], DEFAULT_MODEL);
    assert_eq!(body["audio_format"], "pcm_s16le");
    assert_eq!(body["sample_rate"], 16000);
    assert_eq!(body["num_channels"], 1);
    assert_eq!(body["enable_endpoint_detection"], true);
    assert_eq!(body["enable_language_identification"], true);
    assert!(body.get("language_hints").is_none());
}

#[test]
fn build_config_message_with_language_and_hotwords() {
    let config = AsrConfig {
        api_key: "k".into(),
        app_key: "stt-rt-v4".into(),
        language: Some("zh-CN".into()),
        hotwords: vec!["Koe".into(), "Soniox".into()],
        sample_rate_hz: 16000,
        ..Default::default()
    };
    let body = SonioxAsrProvider::build_config_message(&config, "k");
    assert_eq!(body["model"], "stt-rt-v4");
    assert_eq!(body["language_hints"], serde_json::Value::from(vec!["zh"]));
    assert!(body.get("enable_language_identification").is_none());
    assert_eq!(
        body["context"]["terms"],
        serde_json::Value::from(vec!["Koe", "Soniox"])
    );
}

#[test]
fn parse_response_interim_and_final_tokens() {
    let mut p = SonioxAsrProvider::new();
    let msg = r#"{
            "tokens": [
                {"text": "Hello", "is_final": true, "confidence": 0.9},
                {"text": " world", "is_final": false, "confidence": 0.8}
            ],
            "final_audio_proc_ms": 100,
            "total_audio_proc_ms": 200
        }"#;
    let events = p.parse_response(msg).unwrap();
    assert!(matches!(
        events.first(),
        Some(AsrEvent::Interim(t)) if t == "Hello world"
    ));
    assert!(matches!(
        events.iter().find(|e| matches!(e, AsrEvent::Definite(_))),
        Some(AsrEvent::Definite(t)) if t == "Hello"
    ));
    assert_eq!(p.final_text, "Hello");
}

#[test]
fn parse_response_finished() {
    let mut p = SonioxAsrProvider::new();
    p.final_text = "Hello".into();
    let msg = r#"{
            "tokens": [],
            "final_audio_proc_ms": 100,
            "total_audio_proc_ms": 100,
            "finished": true
        }"#;
    let events = p.parse_response(msg).unwrap();
    assert!(matches!(
        events.iter().find(|e| matches!(e, AsrEvent::Final(_))),
        Some(AsrEvent::Final(t)) if t == "Hello"
    ));
    // A `Closed` here would be taken for an unexpected end and lose the text.
    assert!(
        !events.iter().any(|e| matches!(e, AsrEvent::Closed(_))),
        "finished should not emit Closed"
    );
    assert!(p.emitted_final);
}

#[test]
fn parse_response_skips_end_and_fin_control_tokens() {
    let mut p = SonioxAsrProvider::new();
    let msg = r#"{
            "tokens": [
                {"text": "识别之后，好。", "is_final": true},
                {"text": "<end>", "is_final": true},
                {"text": "像要自己。", "is_final": true},
                {"text": "<end>", "is_final": true}
            ]
        }"#;
    let events = p.parse_response(msg).unwrap();
    assert_eq!(p.final_text, "识别之后，好。像要自己。");
    assert!(
        !p.final_text.contains("<end>") && !p.final_text.contains("<fin>"),
        "control tokens must not leak into transcript"
    );
    assert!(matches!(
        events.iter().find(|e| matches!(e, AsrEvent::Definite(_))),
        Some(AsrEvent::Definite(t)) if t == "识别之后，好。像要自己。"
    ));

    // The answer to a finalize request may hold a lone <fin> token.
    let fin_msg = r#"{
            "tokens": [
                {"text": "<fin>", "is_final": true}
            ]
        }"#;
    let _ = p.parse_response(fin_msg).unwrap();
    assert_eq!(p.final_text, "识别之后，好。像要自己。");
}

#[test]
fn parse_response_error() {
    let mut p = SonioxAsrProvider::new();
    let msg = r#"{
            "tokens": [],
            "error_code": 401,
            "error_type": "unauthenticated",
            "error_message": "Incorrect API key provided."
        }"#;
    let events = p.parse_response(msg).unwrap();
    assert!(matches!(
        events.first(),
        Some(AsrEvent::Error(m)) if m.contains("Incorrect API key")
    ));
}

#[test]
fn parse_response_skips_translation_tokens() {
    let mut p = SonioxAsrProvider::new();
    let msg = r#"{
            "tokens": [
                {"text": "Hello", "is_final": true},
                {"text": "Hola", "is_final": true, "translation_status": "translation"}
            ]
        }"#;
    let _ = p.parse_response(msg).unwrap();
    assert_eq!(p.final_text, "Hello");
}

#[test]
fn connect_requires_api_key() {
    let config = AsrConfig::default();
    let provider = SonioxAsrProvider::new();
    let result = provider.connect(&config);
    assert!(result.is_err());
}

#[test]
fn send_audio_before_connect_fails() {
    let provider = SonioxAsrProvider::new();
    let result = provider.send_audio(&[0u8; 100]);
    assert!(result.is_err());
}

#[test]
fn resolve_url_and_model_defaults() {
    let config = AsrConfig {
        url: String::new(),
        app_key: String::new(),
        ..Default::default()
    };
    assert_eq!(SonioxAsrProvider::resolve_url(&config), DEFAULT_URL);
    assert_eq!(SonioxAsrProvider::resolve_model(&config), DEFAULT_MODEL);

    let config = AsrConfig {
        url: "wss://custom.example/ws".into(),
        app_key: "custom-model".into(),
        ..Default::default()
    };
    assert_eq!(
        SonioxAsrProvider::resolve_url(&config),
        "wss://custom.example/ws"
    );
    assert_eq!(SonioxAsrProvider::resolve_model(&config), "custom-model");
}
