use base64::Engine as _;
use utterly::transcribe::{
    closed_event, content_event, event_reply, is_closed_err, is_timeout_err, normalize_mode,
    parse_server_text, raw_reply, realtime_audio_json, realtime_audio_json_into, setup_json,
    ws_url, IoKind, ReadOutcome, TranscriptEvent, WsError, ACTIVITY_END, ACTIVITY_START, AUDIO_END,
    MODEL, MODES, WS_URL,
};

#[test]
fn setup_requests_smart_text_mode() {
    let s = setup_json(&[], "smart");
    assert!(s.contains("models/gemini-3.5-transcribe-live"), "{s}");
    assert!(s.contains("\"TEXT\""), "{s}");
    assert!(s.contains("\"SMART\""), "{s}");
    assert!(s.contains("\"languageCodes\":[]"), "{s}");
}

#[test]
fn setup_verbatim_mode() {
    let s = setup_json(&[], "verbatim");
    assert!(s.contains("\"VERBATIM\""), "{s}");
    assert!(!s.contains("SMART"), "{s}");
    // Unknown input falls back to smart (the default).
    assert!(setup_json(&[], "nonsense").contains("\"SMART\""));
    assert_eq!(normalize_mode(" VERBATIM "), "verbatim");
}

#[test]
fn setup_carries_language_hints() {
    let s = setup_json(&["en-US".to_string()], "smart");
    assert!(s.contains("en-US"), "{s}");
}

#[test]
fn setup_is_exact_and_escapes_its_codes() {
    let s = setup_json(&["en-US".to_string(), "a\"\\\n\u{1}é".to_string()], "verbatim");
    assert_eq!(
        s,
        "{\"setup\":{\"model\":\"models/gemini-3.5-transcribe-live\",\"generationConfig\":{\"responseModalities\":[\"TEXT\"]},\"inputAudioTranscription\":{\"languageCodes\":[\"en-US\",\"a\\\"\\\\\\n\\u0001é\"],\"mode\":\"VERBATIM\"}}}"
    );
    let v: serde_json::Value = serde_json::from_str(&s).unwrap();
    assert_eq!(v["setup"]["inputAudioTranscription"]["languageCodes"][1], "a\"\\\n\u{1}é");
    assert_eq!(v["setup"]["model"], format!("models/{MODEL}"));
}

#[test]
fn every_ascii_code_survives_the_setup() {
    let code: String = (0u8..128).map(|b| b as char).collect();
    let s = setup_json(&[code.clone()], "smart");
    let v: serde_json::Value = serde_json::from_str(&s).unwrap();
    assert_eq!(v["setup"]["inputAudioTranscription"]["languageCodes"][0], code.as_str());
    assert!(s.contains("\\b\\t\\n\\u000b\\f\\r\\u000e"), "{s}");
    assert!(s.contains("\\u001f !\\\"#"), "{s}");
    assert!(s.contains("~\u{7f}\"]"), "{s}");
}

#[test]
fn modes_are_normalized() {
    assert_eq!(MODES, ["smart", "verbatim"]);
    assert_eq!(normalize_mode("verbatim"), "verbatim");
    assert_eq!(normalize_mode("ver\tbatim\u{3000}"), "verbatim");
    assert_eq!(normalize_mode("verbatim!"), "smart");
    assert_eq!(normalize_mode(""), "smart");
    assert_eq!(normalize_mode(normalize_mode("VerBatim")), "verbatim");
}

#[test]
fn url_ends_with_the_key() {
    assert_eq!(ws_url("k1"), format!("{WS_URL}?key=k1"));
}

#[test]
fn turn_markers_are_nested() {
    for (msg, name) in [(ACTIVITY_START, "activityStart"), (ACTIVITY_END, "activityEnd")] {
        let v: serde_json::Value = serde_json::from_str(msg).unwrap();
        assert!(v["realtimeInput"][name].is_object());
    }
    let v: serde_json::Value = serde_json::from_str(AUDIO_END).unwrap();
    assert_eq!(v["realtimeInput"]["audioStreamEnd"], true);
}

#[test]
fn parse_interim_and_final() {
    let raw = r#"{"serverContent":{"interimInputTranscription":{"text":"hello wo"},"inputTranscription":{"text":"Hello world."}}}"#;
    let ev = parse_server_text(raw);
    assert_eq!(ev.interim.as_deref(), Some("hello wo"));
    assert_eq!(ev.finalized.as_deref(), Some("Hello world."));
    assert!(!ev.closed);
}

#[test]
fn parse_garbage_never_panics() {
    let ev = parse_server_text("not json{{{");
    assert!(ev.interim.is_none() && ev.finalized.is_none() && !ev.closed);
    let ev = parse_server_text(r#"{"setupComplete":{}}"#);
    assert!(!ev.closed);
}

fn is_empty(ev: &TranscriptEvent) -> bool {
    ev.interim.is_none() && ev.finalized.is_none() && !ev.closed
}

#[test]
fn unknown_shapes_are_empty_events() {
    assert!(is_empty(&parse_server_text("")));
    assert!(is_empty(&parse_server_text("[1,2]")));
    assert!(is_empty(&parse_server_text("\"serverContent\"")));
    assert!(is_empty(&parse_server_text(r#"{"goAway":null,"error":null}"#)));
    assert!(is_empty(&parse_server_text(r#"{"setupComplete":{}}"#)));
    assert!(is_empty(&parse_server_text(r#"{"serverContent":null}"#)));
    assert!(is_empty(&parse_server_text(r#"{"serverContent":{"inputTranscription":{"text":7}}}"#)));
    assert!(is_empty(&parse_server_text(
        r#"{"serverContent":{"inputTranscription":{"text":""},"interimInputTranscription":"x"}}"#
    )));
    assert!(is_empty(&parse_server_text(r#"{"serverContent":{"generationComplete":false}}"#)));
    assert!(is_empty(&parse_server_text(r#"{"serverContent":{"generationComplete":"true"}}"#)));
}

#[test]
fn farewells_and_errors_close() {
    for raw in [
        r#"{"goAway":{}}"#,
        r#"{"goAway":{"timeLeft":"1s"}}"#,
        r#"{"error":{"code":401}}"#,
        r#"{"error":"text"}"#,
        r#"{"serverContent":null,"goAway":{}}"#,
    ] {
        let ev = parse_server_text(raw);
        assert!(ev.closed, "{raw}");
        assert!(ev.interim.is_none() && ev.finalized.is_none(), "{raw}");
    }
}

#[test]
fn completed_generation_closes() {
    let ev = parse_server_text(
        r#"{"serverContent":{"generationComplete":true,"inputTranscription":{"text":"aé\n"}}}"#,
    );
    assert!(ev.closed);
    assert_eq!(ev.finalized.as_deref(), Some("aé\n"));
    assert!(ev.interim.is_none());
}

#[test]
fn content_events_drop_empty_texts() {
    let ev = content_event(Some("pre"), Some(""), Some(true));
    assert_eq!(ev.interim.as_deref(), Some("pre"));
    assert!(ev.finalized.is_none());
    assert!(ev.closed);
    assert!(is_empty(&content_event(None, None, Some(false))));
}

#[test]
fn realtime_audio_json_into_reuses_buffer() {
    let pcm: Vec<i16> = (0..1600).map(|i| ((i * 37) % 1000 - 500) as i16).collect();
    let expected = realtime_audio_json(&pcm);
    let mut buf = String::new();
    realtime_audio_json_into(&pcm, &mut buf);
    assert_eq!(buf, expected, "into-variant must match owned variant");
    let cap = buf.capacity();
    assert!(cap >= buf.len(), "buffer must fit output");
    realtime_audio_json_into(&pcm, &mut buf);
    assert_eq!(buf, expected, "second call output must match");
    assert_eq!(buf.capacity(), cap, "second call with same buf must not grow capacity");
}

#[test]
fn realtime_audio_json_round_trips() {
    let pcm: Vec<i16> = (0..1600).map(|i| ((i * 37) % 1000 - 500) as i16).collect();
    let msg = realtime_audio_json(&pcm);
    let v: serde_json::Value = serde_json::from_str(&msg).expect("valid JSON");
    assert_eq!(v["realtimeInput"]["audio"]["mimeType"], "audio/pcm;rate=16000");
    let raw = base64::engine::general_purpose::STANDARD
        .decode(v["realtimeInput"]["audio"]["data"].as_str().unwrap())
        .expect("valid base64");
    assert_eq!(raw.len(), 3200, "100ms x 16-bit mono");
    // Little-endian round-trip of first + last sample.
    let first = i16::from_le_bytes([raw[0], raw[1]]);
    let last = i16::from_le_bytes([raw[3198], raw[3199]]);
    assert_eq!((first, last), (pcm[0], pcm[1599]));
}

#[test]
fn audio_message_is_exact() {
    let wrap = |data: &str| {
        format!(
            "{{\"realtimeInput\":{{\"audio\":{{\"data\":\"{data}\",\"mimeType\":\"audio/pcm;rate=16000\"}}}}}}"
        )
    };
    assert_eq!(realtime_audio_json(&[]), wrap(""));
    assert_eq!(realtime_audio_json(&[-1]), wrap("//8="));
    assert_eq!(realtime_audio_json(&[1, -2]), wrap("AQD+/w=="));
    assert_eq!(realtime_audio_json(&[i16::MIN, i16::MAX, 0]), wrap("AID/fwAA"));
    let mut buf = String::from("stale");
    realtime_audio_json_into(&[-1], &mut buf);
    assert_eq!(buf, wrap("//8="));
}

#[test]
fn timeout_io_kinds_map_to_none() {
    let wb = WsError::Io(IoKind::WouldBlock);
    let to = WsError::Io(IoKind::TimedOut);
    assert!(is_timeout_err(&wb), "WouldBlock must be a timeout");
    assert!(is_timeout_err(&to), "TimedOut must be a timeout");
    let other = WsError::Io(IoKind::ConnectionReset);
    assert!(!is_timeout_err(&other), "non-timeout IO must not be a timeout");
    assert!(!is_timeout_err(&WsError::ConnectionClosed), "close must not be a timeout");
}

#[test]
fn close_maps_to_closed_event() {
    let ev = closed_event();
    assert!(ev.closed, "close helper must set closed:true");
    assert!(ev.interim.is_none() && ev.finalized.is_none());
    assert!(is_closed_err(&WsError::ConnectionClosed));
    assert!(is_closed_err(&WsError::AlreadyClosed));
    let wb = WsError::Io(IoKind::WouldBlock);
    assert!(!is_closed_err(&wb), "timeout must not map to closed");
}

fn failed(e: WsError) -> ReadOutcome {
    ReadOutcome::Failed(e, "boom".to_string())
}

#[test]
fn raw_replies_are_loud() {
    assert_eq!(raw_reply(ReadOutcome::Text("hi".to_string())).as_deref(), Some("hi"));
    assert_eq!(
        raw_reply(ReadOutcome::Binary(vec![0x68, 0xC3, 0xA9])).as_deref(),
        Some("hé")
    );
    assert_eq!(raw_reply(ReadOutcome::Binary(vec![0x61, 0xFF])).as_deref(), Some("a\u{FFFD}"));
    assert_eq!(
        raw_reply(ReadOutcome::Close(Some(("Invalid".to_string(), "bad field".to_string()))))
            .as_deref(),
        Some("<CLOSE code=Invalid reason=bad field>")
    );
    assert_eq!(raw_reply(ReadOutcome::Close(None)).as_deref(), Some("<CLOSE no frame>"));
    assert_eq!(raw_reply(ReadOutcome::Control).as_deref(), Some(""));
    assert_eq!(raw_reply(failed(WsError::Io(IoKind::TimedOut))), None);
    assert_eq!(raw_reply(failed(WsError::Io(IoKind::WouldBlock))), None);
    assert_eq!(
        raw_reply(failed(WsError::ConnectionClosed)).as_deref(),
        Some("<read error: boom>")
    );
}

#[test]
fn reads_become_events() {
    let text = r#"{"serverContent":{"inputTranscription":{"text":"ok"}}}"#;
    let ev = event_reply(ReadOutcome::Text(text.to_string())).unwrap();
    assert_eq!(ev.finalized.as_deref(), Some("ok"));
    let ev = event_reply(ReadOutcome::Binary(text.as_bytes().to_vec())).unwrap();
    assert_eq!(ev.finalized.as_deref(), Some("ok"));
    assert!(event_reply(ReadOutcome::Close(None)).unwrap().closed);
    assert!(is_empty(&event_reply(ReadOutcome::Control).unwrap()));
    assert!(event_reply(failed(WsError::ConnectionClosed)).unwrap().closed);
    assert!(event_reply(failed(WsError::AlreadyClosed)).unwrap().closed);
    assert!(event_reply(failed(WsError::Io(IoKind::TimedOut))).is_none());
    assert!(event_reply(failed(WsError::Io(IoKind::Other))).is_none());
    assert!(event_reply(failed(WsError::Other)).is_none());
}
