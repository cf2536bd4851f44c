use soniox_asr::error::{AsrError, NetworkStep};
use soniox_asr::event::AsrEvent;
use soniox_asr::handshake::Opening;
use soniox_asr::provider::{close_reason, CloseFrame, Incoming, Outgoing, SonioxAsrProvider};
use soniox_asr::response::{read_response, read_token, Response, Token};

fn token(text: &str, is_final: bool) -> Token {
    Token {
        text: text.to_string(),
        is_final,
        translation_status: None,
    }
}

fn update(tokens: Vec<Token>, finished: bool) -> Response {
    Response::Update { tokens, finished }
}

fn text(message: &str) -> Incoming {
    Incoming::Text(message.to_string())
}

fn document(message: &str) -> serde_json::Value {
    serde_json::from_str(message).unwrap()
}

#[test]
fn default_is_new() {
    let p = SonioxAsrProvider::default();
    assert!(!p.connected);
    assert!(!p.input_finished);
    assert!(!p.emitted_final);
    assert!(p.pending_events.is_empty());
    assert_eq!(p.final_text, "");
    assert_eq!(p.last_interim, "");
}

#[test]
fn control_tokens_are_exactly_the_two_marks() {
    assert!(SonioxAsrProvider::is_control_token("<end>"));
    assert!(SonioxAsrProvider::is_control_token("<fin>"));
    for other in ["", "<END>", "<end> ", "end", "<fin", "<fim>", "Hello"] {
        assert!(!SonioxAsrProvider::is_control_token(other));
    }
}

#[test]
fn tokens_are_read_with_their_defaults() {
    assert_eq!(read_token(&document("{}")), token("", false));
    assert_eq!(
        read_token(&document(r#"{"text": 5, "is_final": "yes"}"#)),
        token("", false)
    );
    assert_eq!(
        read_token(&document(
            r#"{"text": "a", "is_final": true, "translation_status": "original"}"#
        )),
        Token {
            text: "a".to_string(),
            is_final: true,
            translation_status: Some("original".to_string()),
        }
    );
    assert_eq!(read_token(&document("[1, 2]")), token("", false));
}

#[test]
fn responses_are_read_with_their_defaults() {
    assert_eq!(read_response(&document("{}")), update(vec![], false));
    assert_eq!(read_response(&document("null")), update(vec![], false));
    assert_eq!(
        read_response(&document(r#"{"tokens": "none", "finished": 1}"#)),
        update(vec![], false)
    );
    assert_eq!(
        read_response(&document(r#"{"tokens": [{"text": "a"}, 7], "finished": true}"#)),
        update(vec![token("a", false), token("", false)], true)
    );
}

#[test]
fn failure_messages_fall_back() {
    let failure = |m: &str| Response::Failure(m.to_string());
    assert_eq!(
        read_response(&document(r#"{"error_code": 1, "error_message": "m", "error_type": "t"}"#)),
        failure("m")
    );
    assert_eq!(
        read_response(&document(r#"{"error_type": "t", "error_message": 3}"#)),
        failure("t")
    );
    assert_eq!(
        read_response(&document(r#"{"error_code": null}"#)),
        failure("Unknown Soniox error")
    );
    // A message alone makes no error.
    assert_eq!(
        read_response(&document(r#"{"error_message": "m"}"#)),
        update(vec![], false)
    );
}

#[test]
fn failure_changes_nothing() {
    let mut p = SonioxAsrProvider::new();
    p.final_text = "so far".to_string();
    let events = p.apply_response(&Response::Failure("broken".to_string()));
    assert_eq!(events, vec![AsrEvent::Error("broken".to_string())]);
    assert_eq!(p.final_text, "so far");
    assert!(!p.emitted_final);
}

#[test]
fn unreadable_message_is_a_protocol_error() {
    let mut p = SonioxAsrProvider::new();
    p.final_text = "kept".to_string();
    match p.parse_response("{") {
        Err(AsrError::Protocol(m)) => {
            assert!(m.starts_with("parse response: "));
            assert!(m.len() > "parse response: ".len());
        }
        _ => panic!("expected a protocol error"),
    }
    assert_eq!(p.final_text, "kept");
    assert!(p.on_incoming(text("nonsense")).is_err());
}

#[test]
fn interim_and_definite_events() {
    let mut p = SonioxAsrProvider::new();
    let events = p.apply_response(&update(
        vec![token("Hello", true), token(" wor", false), token("ld", false)],
        false,
    ));
    assert_eq!(
        events,
        vec![
            AsrEvent::Interim("Hello world".to_string()),
            AsrEvent::Definite("Hello".to_string()),
        ]
    );
    assert_eq!(p.last_interim, "Hello world");

    // What may still change is replaced, what is final stays.
    let events = p.apply_response(&update(vec![token(" word", false)], false));
    assert_eq!(events, vec![AsrEvent::Interim("Hello word".to_string())]);
    assert_eq!(p.final_text, "Hello");
}

#[test]
fn the_same_interim_is_not_shown_twice() {
    let mut p = SonioxAsrProvider::new();
    let response = update(vec![token("so", false)], false);
    assert_eq!(p.apply_response(&response).len(), 1);
    assert_eq!(p.apply_response(&response), vec![]);
}

#[test]
fn an_empty_interim_is_not_shown() {
    let mut p = SonioxAsrProvider::new();
    assert_eq!(p.apply_response(&update(vec![], false)), vec![]);
    assert_eq!(
        p.apply_response(&update(vec![token("", true), token("<fin>", true)], false)),
        vec![]
    );
}

#[test]
fn translations_are_passed_over_and_originals_kept() {
    let mut p = SonioxAsrProvider::new();
    let with_status = |t: &str, s: &str| Token {
        text: t.to_string(),
        is_final: true,
        translation_status: Some(s.to_string()),
    };
    p.apply_response(&update(
        vec![with_status("a", "original"), with_status("b", "translation"), token("c", true)],
        false,
    ));
    assert_eq!(p.final_text, "ac");
}

#[test]
fn control_tokens_are_compared_whole() {
    // A mark inside a longer text, or spread over two tokens, is text like any other.
    let mut p = SonioxAsrProvider::new();
    p.apply_response(&update(vec![token("a<end>", true), token("<f", true), token("in>", true)], false));
    assert_eq!(p.final_text, "a<end><fin>");
}

#[test]
fn final_comes_once_even_if_empty() {
    let mut p = SonioxAsrProvider::new();
    let last = update(vec![], true);
    assert_eq!(p.apply_response(&last), vec![AsrEvent::Final(String::new())]);
    assert_eq!(p.apply_response(&last), vec![]);

    let mut events = Vec::new();
    p.push_final_event(&mut events);
    assert!(events.is_empty());
    p.queue_final_if_needed();
    assert!(p.pending_events.is_empty());
}

#[test]
fn final_event_carries_the_tokens_of_its_own_response() {
    let mut p = SonioxAsrProvider::new();
    p.apply_response(&update(vec![token("Hello", true)], false));
    let events = p.apply_response(&update(vec![token(" world", true)], true));
    assert_eq!(
        events,
        vec![
            AsrEvent::Interim("Hello world".to_string()),
            AsrEvent::Definite("Hello world".to_string()),
            AsrEvent::Final("Hello world".to_string()),
        ]
    );
}

#[test]
fn push_final_event_appends() {
    let mut p = SonioxAsrProvider::new();
    p.final_text = "x".to_string();
    let mut events = vec![AsrEvent::Connected];
    p.push_final_event(&mut events);
    p.push_final_event(&mut events);
    assert_eq!(events, vec![AsrEvent::Connected, AsrEvent::Final("x".to_string())]);
    assert!(p.emitted_final);
}

#[test]
fn events_are_handed_out_in_order() {
    let mut p = SonioxAsrProvider::new();
    p.connected = true;
    let message = r#"{"tokens": [{"text": "Hi", "is_final": true}], "finished": true}"#;
    assert_eq!(p.on_incoming(text(message)), Ok(Some(AsrEvent::Interim("Hi".to_string()))));
    assert_eq!(p.next_event(), Ok(Some(AsrEvent::Definite("Hi".to_string()))));
    assert_eq!(p.next_event(), Ok(Some(AsrEvent::Final("Hi".to_string()))));
    assert_eq!(p.next_event(), Ok(None));
}

#[test]
fn next_event_needs_a_connection_only_to_read() {
    let mut p = SonioxAsrProvider::new();
    assert_eq!(p.next_event(), Err(AsrError::Connection("not connected".to_string())));
    p.pending_events.push_back(AsrEvent::Connected);
    assert_eq!(p.next_event(), Ok(Some(AsrEvent::Connected)));
    assert!(p.next_event().is_err());
}

#[test]
fn frames_without_events_ask_for_more() {
    let mut p = SonioxAsrProvider::new();
    p.connected = true;
    assert_eq!(p.on_incoming(Incoming::Binary), Ok(None));
    assert_eq!(p.on_incoming(Incoming::Other), Ok(None));
    assert_eq!(p.on_incoming(text("{}")), Ok(None));
}

#[test]
fn failed_connection_is_a_protocol_error() {
    let mut p = SonioxAsrProvider::new();
    assert_eq!(
        p.on_incoming(Incoming::Failed("reset".to_string())),
        Err(AsrError::Protocol("reset".to_string()))
    );
}

#[test]
fn close_without_finished_gives_the_transcript_first() {
    let mut p = SonioxAsrProvider::new();
    p.connected = true;
    p.final_text = "so far".to_string();
    let frame = CloseFrame { code: 1000, reason: "bye".to_string() };
    assert_eq!(
        p.on_incoming(Incoming::Close(Some(frame))),
        Ok(Some(AsrEvent::Final("so far".to_string())))
    );
    match p.next_event() {
        Ok(Some(AsrEvent::Closed(Some(reason)))) => {
            assert_eq!(reason, close_reason(1000, "bye"));
            assert!(reason.starts_with("code=1000, reason="));
            assert!(reason.contains("bye"));
        }
        _ => panic!("expected the end"),
    }
    assert_eq!(p.on_incoming(Incoming::Close(None)), Ok(Some(AsrEvent::Closed(None))));
}

#[test]
fn end_of_stream_after_final_gives_the_end_alone() {
    let mut p = SonioxAsrProvider::new();
    p.connected = true;
    p.apply_response(&update(vec![], true));
    assert_eq!(
        p.on_incoming(Incoming::Ended),
        Ok(Some(AsrEvent::Closed(Some("WebSocket stream ended".to_string()))))
    );
    assert_eq!(p.next_event(), Ok(None));
}

#[test]
fn close_reason_prints_code_and_reason() {
    let shown = |r: &str| format!("{:?}", tokio_tungstenite::tungstenite::Utf8Bytes::from(r));
    for code in [0u16, 7, 10, 999, 1000, 1011, 4999, 65535] {
        for reason in ["", "going away", "\"quoted\"\n", "再见"] {
            assert_eq!(
                close_reason(code, reason),
                format!("code={}, reason={}", code, shown(reason))
            );
        }
    }
}

#[test]
fn audio_is_sent_on_an_open_connection() {
    let mut p = SonioxAsrProvider::new();
    assert_eq!(p.send_audio(&[]), Ok(None));
    assert_eq!(p.send_audio(&[1]), Err(AsrError::Connection("not connected".to_string())));
    p.connected = true;
    assert_eq!(p.send_audio(&[]), Ok(None));
    assert_eq!(p.send_audio(&[1, 2, 255]), Ok(Some(vec![1, 2, 255])));
}

#[test]
fn input_is_finished_once() {
    let mut p = SonioxAsrProvider::new();
    p.connected = true;
    assert_eq!(
        p.finish_input(),
        Some(Outgoing {
            step: NetworkStep::SendFinalize,
            text: r#"{"type":"finalize"}"#.to_string(),
        })
    );
    assert!(p.input_finished);
    assert_eq!(p.finish_input(), None);

    let mut unconnected = SonioxAsrProvider::new();
    assert_eq!(unconnected.finish_input(), None);
    assert!(unconnected.input_finished);
}

#[test]
fn finalize_is_followed_by_end_of_audio() {
    assert_eq!(
        SonioxAsrProvider::finish_next(NetworkStep::SendFinalize, None),
        Ok(Some(Outgoing {
            step: NetworkStep::SendEndOfAudio,
            text: String::new(),
        }))
    );
    assert_eq!(
        SonioxAsrProvider::finish_next(NetworkStep::SendEndOfAudio, None),
        Ok(None)
    );
}

#[test]
fn a_failed_finish_names_its_message_and_stops() {
    assert_eq!(
        SonioxAsrProvider::finish_next(NetworkStep::SendFinalize, Some("gone".to_string())),
        Err(AsrError::Protocol("send finalize: gone".to_string()))
    );
    assert_eq!(
        SonioxAsrProvider::finish_next(NetworkStep::SendEndOfAudio, Some("gone".to_string())),
        Err(AsrError::Protocol("send end-of-audio: gone".to_string()))
    );
}

#[test]
fn failed_audio_is_reported() {
    assert_eq!(SonioxAsrProvider::on_audio_sent(None), Ok(()));
    assert_eq!(
        SonioxAsrProvider::on_audio_sent(Some("gone".to_string())),
        Err(AsrError::Protocol("send audio: gone".to_string()))
    );
}

#[test]
fn failed_configuration_keeps_the_session() {
    let mut p = SonioxAsrProvider::new();
    p.connected = true;
    p.final_text = "old".to_string();
    assert_eq!(
        p.on_config_sent(Some("gone".to_string())),
        Err(AsrError::Protocol("send config: gone".to_string()))
    );
    assert!(p.connected);
    assert_eq!(p.final_text, "old");
    assert!(p.pending_events.is_empty());
}

#[test]
fn the_caller_gets_one_final_and_then_the_end() {
    let mut p = SonioxAsrProvider::new();
    p.connected = true;
    let mut got = Vec::new();
    for incoming in [
        text(r#"{"tokens": [{"text": "a", "is_final": true}], "finished": true}"#),
        Incoming::Binary,
        text(r#"{"finished": true}"#),
        Incoming::Close(None),
        Incoming::Ended,
    ] {
        if let Ok(Some(event)) = p.on_incoming(incoming) {
            got.push(event);
        }
    }
    while let Ok(Some(event)) = p.next_event() {
        got.push(event);
    }
    assert_eq!(
        got,
        vec![
            AsrEvent::Interim("a".to_string()),
            AsrEvent::Definite("a".to_string()),
            AsrEvent::Final("a".to_string()),
            AsrEvent::Closed(None),
            AsrEvent::Closed(Some("WebSocket stream ended".to_string())),
        ]
    );
}

#[test]
fn frames_without_events_change_nothing() {
    let mut p = SonioxAsrProvider::new();
    p.connected = true;
    p.final_text = "a".to_string();
    p.last_interim = "a".to_string();
    p.emitted_final = true;
    let silent = r#"{"tokens": [{"text": "<fin>", "is_final": true}], "finished": true}"#;
    for incoming in [text(silent), text("{}"), Incoming::Binary, Incoming::Other] {
        assert_eq!(p.on_incoming(incoming), Ok(None));
        assert_eq!(p.final_text, "a");
        assert_eq!(p.last_interim, "a");
        assert!(p.emitted_final);
        assert!(p.pending_events.is_empty());
    }
}

#[test]
fn configured_session_starts_anew() {
    let mut p = SonioxAsrProvider::new();
    p.final_text = "old".to_string();
    p.last_interim = "old".to_string();
    p.input_finished = true;
    p.emitted_final = true;
    p.pending_events.push_back(AsrEvent::Closed(None));
    p.on_config_sent(None).unwrap();
    assert_eq!(p.final_text, "");
    assert_eq!(p.last_interim, "");
    assert!(!p.input_finished);
    assert!(!p.emitted_final);
    assert_eq!(p.pending_events, vec![AsrEvent::Closed(None), AsrEvent::Connected]);
}

#[test]
fn close_forgets_everything() {
    let mut p = SonioxAsrProvider::new();
    p.connected = true;
    p.input_finished = true;
    p.on_incoming(text(r#"{"tokens": [{"text": "x", "is_final": true}], "finished": true}"#)).unwrap();
    assert!(p.close());
    assert!(!p.connected);
    assert!(!p.input_finished);
    assert!(!p.emitted_final);
    assert!(p.pending_events.is_empty());
    assert_eq!(p.final_text, "");
    assert_eq!(p.last_interim, "");
    assert!(!p.close());
}

#[test]
fn network_failures_name_their_step() {
    assert_eq!(
        AsrError::in_step(NetworkStep::Connect, "refused"),
        AsrError::Connection("refused".to_string())
    );
    assert_eq!(
        AsrError::in_step(NetworkStep::SendConfig, "x"),
        AsrError::Protocol("send config: x".to_string())
    );
    assert_eq!(
        AsrError::in_step(NetworkStep::SendAudio, "x"),
        AsrError::Protocol("send audio: x".to_string())
    );
    assert_eq!(
        AsrError::in_step(NetworkStep::SendFinalize, "x"),
        AsrError::Protocol("send finalize: x".to_string())
    );
    assert_eq!(
        AsrError::in_step(NetworkStep::SendEndOfAudio, "x"),
        AsrError::Protocol("send end-of-audio: x".to_string())
    );
    assert_eq!(
        AsrError::timed_out(),
        AsrError::Connection("connection timed out".to_string())
    );
}

#[test]
fn transcript_grows_over_messages_and_a_reopened_session_starts_empty() {
    let config = soniox_asr::config::AsrConfig::default();
    let mut p = SonioxAsrProvider::new();
    p.on_open(&config, "k", Opening::Open).unwrap();
    p.on_config_sent(None).unwrap();
    assert_eq!(p.next_event(), Ok(Some(AsrEvent::Connected)));
    for message in [
        r#"{"tokens": [{"text": "one", "is_final": true}, {"text": " tw"}]}"#,
        r#"{"error_code": 500}"#,
        r#"{"tokens": [{"text": " two", "is_final": true}, {"text": "<end>", "is_final": true}]}"#,
        r#"{"tokens": [{"text": " three", "is_final": true}], "finished": true}"#,
        r#"{"tokens": [], "finished": true}"#,
    ] {
        p.on_incoming(text(message)).unwrap();
    }
    assert_eq!(p.final_text, "one two three");
    p.on_incoming(Incoming::Ended).unwrap();
    let mut finals = 0;
    while let Ok(Some(event)) = p.next_event() {
        if event == AsrEvent::Final("one two three".to_string()) {
            finals += 1;
        }
    }
    assert_eq!(finals, 1);

    assert!(p.close());
    p.on_open(&config, "k", Opening::Open).unwrap();
    p.on_config_sent(None).unwrap();
    assert!(p.connected);
    assert_eq!(p.pending_events, vec![AsrEvent::Connected]);
    assert_eq!(p.final_text, "");
    assert!(!p.emitted_final);
}

#[test]
fn close_reason_escapes_what_is_not_printable() {
    assert_eq!(close_reason(1000, "bye"), r#"code=1000, reason=Utf8Bytes(b"bye")"#);
    assert_eq!(close_reason(1001, ""), r#"code=1001, reason=Utf8Bytes(b"")"#);
    assert_eq!(
        close_reason(1011, "\n\r\t\\\"'\0 ~\u{1}\u{7f}"),
        r#"code=1011, reason=Utf8Bytes(b"\n\r\t\\\"'\0 ~\x01\x7f")"#
    );
    assert_eq!(
        close_reason(4000, "é再"),
        r#"code=4000, reason=Utf8Bytes(b"\xc3\xa9\xe5\x86\x8d")"#
    );
}
