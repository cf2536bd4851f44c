use soniox_asr::config::AsrConfig;
use soniox_asr::error::AsrError;
use soniox_asr::handshake::{ConnectPlan, Opening};
use soniox_asr::message::DEFAULT_URL;
use soniox_asr::provider::SonioxAsrProvider;
use soniox_asr::text::{decimal, is_white_space, joined, same_text, trim};

fn connection(message: &str) -> AsrError {
    AsrError::Connection(message.to_string())
}

fn pair(name: &str, value: &str) -> (String, String) {
    (name.to_string(), value.to_string())
}

fn with_headers(headers: Vec<(String, String)>) -> AsrConfig {
    AsrConfig {
        api_key: "k".into(),
        custom_headers: headers,
        ..Default::default()
    }
}

fn hints(language: &str) -> Vec<String> {
    SonioxAsrProvider::language_hints(&AsrConfig {
        language: Some(language.into()),
        ..Default::default()
    })
}

#[test]
fn blank_settings() {
    let config = AsrConfig::default();
    assert_eq!(config.url, "");
    assert_eq!(config.app_key, "");
    assert_eq!(config.access_key, "");
    assert_eq!(config.api_key, "");
    assert_eq!(config.language, None);
    assert!(config.hotwords.is_empty());
    assert_eq!(config.sample_rate_hz, 0);
    assert_eq!(config.connect_timeout_ms, 0);
    assert!(config.custom_headers.is_empty());
}

#[test]
fn white_space_is_that_of_unicode() {
    let mut c = 0u32;
    while c <= 0x10ffff {
        if let Some(c) = char::from_u32(c) {
            assert_eq!(is_white_space(c), c.is_whitespace());
        }
        c += 1;
    }
}

#[test]
fn trim_takes_white_space_from_both_ends() {
    for s in ["", " ", " \t\n", "a", " a", "a ", " a b ", "\u{3000}中 文\u{2003}", "\u{200b}x"] {
        assert_eq!(trim(s), s.trim());
    }
}

#[test]
fn texts_are_compared_whole() {
    let texts = ["", "a", "b", "ab", "é", "e\u{301}", "中文"];
    for (i, a) in texts.iter().enumerate() {
        for (j, b) in texts.iter().enumerate() {
            assert_eq!(same_text(a, b), i == j);
        }
    }
    assert_eq!(joined("中", "文"), "中文");
}

#[test]
fn decimal_prints_every_code() {
    let mut n = 0u32;
    while n <= 65535 {
        assert_eq!(decimal(n as u16), n.to_string());
        n += 1;
    }
}

#[test]
fn language_hints_of_odd_tags() {
    assert_eq!(hints("  EN-us "), vec!["en"]);
    assert_eq!(hints("zh_Hant-TW"), vec!["zh"]);
    assert_eq!(hints("ÉN-x"), vec!["Én"]);
    assert_eq!(hints("auto-XX"), vec!["auto"]);
    assert_eq!(hints("zh -CN"), vec!["zh "]);
    assert!(hints("-CN").is_empty());
    assert!(hints("_").is_empty());
    assert!(hints(" \u{3000}").is_empty());
    assert!(hints(" Auto\n").is_empty());
}

#[test]
fn api_key_comes_first_then_access_key() {
    let key = |api_key: &str, access_key: &str| {
        SonioxAsrProvider::resolve_api_key(&AsrConfig {
            api_key: api_key.into(),
            access_key: access_key.into(),
            ..Default::default()
        })
    };
    assert_eq!(key("a", "b"), Ok("a".to_string()));
    assert_eq!(key("", "b"), Ok("b".to_string()));
    assert_eq!(key("", ""), Err(connection("API key is required")));
}

#[test]
fn bearer_header_without_custom_headers() {
    assert_eq!(
        SonioxAsrProvider::request_headers(&with_headers(vec![]), "Secret"),
        Ok(vec![pair("authorization", "Bearer Secret")])
    );
    assert_eq!(
        SonioxAsrProvider::request_headers(&with_headers(vec![]), "two\nlines"),
        Err(connection("invalid api_key"))
    );
}

#[test]
fn custom_headers_replace_the_bearer_header() {
    let config = with_headers(vec![pair("X-Token", "1"), pair("x-other", "Ä\t")]);
    assert_eq!(
        SonioxAsrProvider::request_headers(&config, "two\nlines"),
        Ok(vec![pair("x-token", "1"), pair("x-other", "Ä\t")])
    );
}

#[test]
fn the_first_bad_header_is_named() {
    let check = |headers| SonioxAsrProvider::request_headers(&with_headers(headers), "k");
    assert_eq!(
        check(vec![pair("ok", "v"), pair("b d", "v"), pair("", "v")]),
        Err(connection("invalid header name: b d"))
    );
    assert_eq!(check(vec![pair("", "v")]), Err(connection("invalid header name: ")));
    assert_eq!(
        check(vec![pair("Ok", "\n"), pair("b d", "v")]),
        Err(connection("invalid header value for Ok"))
    );
    // The name is looked at before the value.
    assert_eq!(check(vec![pair("é", "\n")]), Err(connection("invalid header name: é")));
}

#[test]
fn header_names_are_tokens() {
    let mut c = 0u32;
    while c <= 0x2ff {
        let c_char = char::from_u32(c).unwrap();
        let ok = c_char.is_ascii_alphanumeric() || "!#$%&'*+-.^_`|~".contains(c_char);
        let name = c_char.to_string();
        let r = SonioxAsrProvider::request_headers(&with_headers(vec![pair(&name, "v")]), "k");
        if ok {
            assert_eq!(r, Ok(vec![pair(&name.to_ascii_lowercase(), "v")]));
        } else {
            assert!(r.is_err());
        }
        c += 1;
    }
}

#[test]
fn header_names_have_a_greatest_length() {
    let check = |name: String| {
        SonioxAsrProvider::request_headers(&with_headers(vec![(name, "v".to_string())]), "k")
    };
    for len in [64usize, 65, 65535] {
        assert_eq!(check("A".repeat(len)), Ok(vec![pair(&"a".repeat(len), "v")]));
    }
    assert!(check("a".repeat(65536)).is_err());
    assert!(check("a".repeat(64) + " ").is_err());
}

#[test]
fn header_values_have_no_control_characters() {
    let mut c = 0u32;
    while c <= 0x2ff {
        let c_char = char::from_u32(c).unwrap();
        let ok = c_char == '\t' || (c >= 32 && c != 127);
        let value = c_char.to_string();
        let r = SonioxAsrProvider::request_headers(&with_headers(vec![pair("n", &value)]), "k");
        assert_eq!(r.is_ok(), ok);
        c += 1;
    }
}

#[test]
fn connect_plans_the_request() {
    let p = SonioxAsrProvider::new();
    let config = AsrConfig {
        access_key: "k".into(),
        connect_timeout_ms: 3000,
        ..Default::default()
    };
    assert_eq!(
        p.connect(&config),
        Ok(ConnectPlan {
            api_key: "k".to_string(),
            url: DEFAULT_URL.to_string(),
            headers: vec![pair("authorization", "Bearer k")],
            timeout_ms: 3000,
        })
    );
}

#[test]
fn connect_looks_at_key_then_url_then_headers() {
    let p = SonioxAsrProvider::new();
    let mut config = with_headers(vec![pair("b d", "v")]);
    config.url = "no host".into();
    config.api_key = String::new();
    assert_eq!(p.connect(&config), Err(connection("API key is required")));
    config.api_key = "k".into();
    match p.connect(&config) {
        Err(AsrError::Connection(m)) => {
            assert!(m.starts_with("invalid URL: "));
            assert!(!m.contains("no host"));
        }
        _ => panic!("expected a connection error"),
    }
    config.url = "wss://custom.example/ws".into();
    assert_eq!(p.connect(&config), Err(connection("invalid header name: b d")));
    config.custom_headers = vec![];
    assert_eq!(p.connect(&config).unwrap().url, "wss://custom.example/ws");
}

#[test]
fn plan_reports_the_refusal_that_it_is_given() {
    let config = with_headers(vec![]);
    assert_eq!(
        SonioxAsrProvider::plan(&config, Some("why".to_string())),
        Err(connection("invalid URL: why"))
    );
    assert!(SonioxAsrProvider::plan(&config, None).is_ok());
}

#[test]
fn opening_gives_the_configuration_text() {
    let mut p = SonioxAsrProvider::new();
    let config = AsrConfig {
        api_key: "k".into(),
        language: Some("zh-CN".into()),
        hotwords: vec!["Koe".into(), "say \"hi\"".into()],
        sample_rate_hz: 16000,
        ..Default::default()
    };
    let text = p.on_open(&config, "k", Opening::Open).unwrap();
    assert!(p.connected);
    assert!(p.pending_events.is_empty());
    assert_eq!(
        text,
        concat_lines(&[
            r#"{"api_key":"k","audio_format":"pcm_s16le","#,
            r#""context":{"terms":["Koe","say \"hi\""]},"#,
            r#""enable_endpoint_detection":true,"language_hints":["zh"],"#,
            r#""model":"stt-rt-v5","num_channels":1,"sample_rate":16000}"#,
        ])
    );
}

fn concat_lines(lines: &[&str]) -> String {
    lines.concat()
}

#[test]
fn configuration_speaks_of_the_language_in_one_way() {
    for (language, hinted) in [(None, false), (Some("auto"), false), (Some("de-AT"), true)] {
        let config = AsrConfig {
            language: language.map(|l| l.to_string()),
            ..Default::default()
        };
        let body = SonioxAsrProvider::build_config_message(&config, "k");
        assert_eq!(body.get("language_hints").is_some(), hinted);
        assert_eq!(body.get("enable_language_identification").is_some(), !hinted);
        assert!(body.get("context").is_none());
        assert_eq!(body.as_object().unwrap().len(), 7);
    }
}

#[test]
fn a_connection_that_does_not_open_is_an_error() {
    let mut p = SonioxAsrProvider::new();
    let config = AsrConfig::default();
    assert_eq!(
        p.on_open(&config, "k", Opening::TimedOut),
        Err(connection("connection timed out"))
    );
    assert_eq!(
        p.on_open(&config, "k", Opening::Failed("refused".to_string())),
        Err(connection("refused"))
    );
    assert!(!p.connected);
}

#[test]
fn of_two_headers_of_one_name_the_later_counts() {
    let config = with_headers(vec![pair("X-A", "1"), pair("b", "2"), pair("x-a", "3")]);
    let plan = SonioxAsrProvider::new().connect(&config).unwrap();
    let mut map = tokio_tungstenite::tungstenite::http::HeaderMap::new();
    for (name, value) in &plan.headers {
        let name: tokio_tungstenite::tungstenite::http::HeaderName = name.parse().unwrap();
        let value: tokio_tungstenite::tungstenite::http::HeaderValue = value.parse().unwrap();
        map.insert(name, value);
    }
    assert_eq!(map.len(), 2);
    assert_eq!(map["x-a"], "3");
    assert_eq!(map["b"], "2");
}

#[test]
fn spelling_of_the_language_does_not_matter() {
    for spelling in ["zh-CN", "ZH-cn", "  zH-CN", "zh-CN\u{3000}\n", "\tZh_CN "] {
        assert_eq!(hints(spelling), vec!["zh"]);
    }
}
