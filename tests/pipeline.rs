use std::collections::BTreeMap;

use betterstack_egress::appender::{render_diagnostics, BetterStackAppender, Level, LogRecord};
use betterstack_egress::client::{authorization_value, classify_response, get_headers};
use betterstack_egress::encode::{encode_messages, encode_spans};
use betterstack_egress::message::{BetterstackMessage, BetterstackSpan, PipelineError};
use betterstack_egress::reporter::{event_level, BetterstackReporter, EventRecord, SpanRecord};

fn record(level: Level, text: &str) -> LogRecord {
    LogRecord { level, message: text.to_string() }
}

fn event(name: &str, props: &[(&str, &str)]) -> EventRecord {
    EventRecord {
        name: name.to_string(),
        properties: props.iter().map(|(k, v)| (k.to_string(), v.to_string())).collect(),
    }
}

fn span(name: &str, events: Vec<EventRecord>) -> SpanRecord {
    SpanRecord { name: name.to_string(), events }
}

fn decode(bytes: &[u8]) -> Vec<BTreeMap<String, String>> {
    rmp_serde::from_slice(bytes).unwrap()
}

fn entry(pairs: &[(&str, &str)]) -> BTreeMap<String, String> {
    pairs.iter().map(|(k, v)| (k.to_string(), v.to_string())).collect()
}

fn msgpack_str(out: &mut Vec<u8>, s: &str) {
    assert!(s.len() < 32);
    out.push(0xa0 | s.len() as u8);
    out.extend_from_slice(s.as_bytes());
}

#[test]
fn log_message_takes_configured_source_and_level_name() {
    let appender = BetterStackAppender::new("https://in.example".to_string(), "tok".to_string(), "svc-a".to_string());
    for (level, name) in [
        (Level::Error, "ERROR"),
        (Level::Warn, "WARN"),
        (Level::Info, "INFO"),
        (Level::Debug, "DEBUG"),
        (Level::Trace, "TRACE"),
    ] {
        let m = appender.convert_record(&record(level, "hello"), &vec![]);
        assert_eq!(m.source, "svc-a");
        assert_eq!(m.level, name);
        assert_eq!(m.message, "hello");
        assert!(m.diagnostics.is_none());
        assert_eq!(level.as_str(), name);
    }
}

#[test]
fn diagnostics_render_as_debug_list() {
    let appender = BetterStackAppender::new("u".to_string(), "t".to_string(), "s".to_string());
    let diags = vec!["A { x: 1 }".to_string(), "B".to_string()];
    let m = appender.convert_record(&record(Level::Info, "m"), &diags);
    assert_eq!(m.diagnostics.as_deref(), Some("[A { x: 1 }, B]"));
    assert_eq!(render_diagnostics(&vec!["one".to_string()]), "[one]");
    assert_eq!(render_diagnostics(&vec![]), "[]");
}

#[test]
fn empty_diagnostics_leave_no_key_in_encoding() {
    let appender = BetterStackAppender::new("u".to_string(), "t".to_string(), "s".to_string());
    let req = appender.prepare(&record(Level::Warn, "w"), &vec![]).unwrap();
    let decoded = decode(&req.body);
    assert_eq!(decoded.len(), 1);
    assert!(!decoded[0].contains_key("diagnostics"));
    assert_eq!(decoded[0], entry(&[("source", "s"), ("message", "w"), ("level", "WARN")]));

    let req = appender.prepare(&record(Level::Warn, "w"), &vec!["D".to_string()]).unwrap();
    let decoded = decode(&req.body);
    assert_eq!(decoded[0].get("diagnostics").map(|s| s.as_str()), Some("[D]"));
}

#[test]
fn spans_flatten_one_message_per_event_in_order() {
    let reporter = BetterstackReporter::new("u".to_string(), "t".to_string());
    let spans = vec![
        span("a", vec![event("a1", &[]), event("a2", &[("level", "DEBUG")])]),
        span("empty", vec![]),
        span("b", vec![event("b1", &[("k", "v")])]),
    ];
    let out = reporter.convert(&spans);
    let got: Vec<(&str, &str, &str)> =
        out.iter().map(|m| (m.source.as_str(), m.message.as_str(), m.level.as_str())).collect();
    assert_eq!(got, vec![("a", "a1", "INFO"), ("a", "a2", "DEBUG"), ("b", "b1", "INFO")]);
}

#[test]
fn empty_batch_prepares_nothing() {
    let reporter = BetterstackReporter::new("u".to_string(), "t".to_string());
    assert!(reporter.convert(&vec![]).is_empty());
    assert!(matches!(reporter.prepare(&vec![]), Ok(None)));
    // a bad token does not matter when there is nothing to send
    let reporter = BetterstackReporter::new("u".to_string(), "bad\ntoken".to_string());
    assert!(matches!(reporter.prepare(&vec![]), Ok(None)));
}

#[test]
fn batch_without_events_sends_empty_array() {
    let reporter = BetterstackReporter::new("u".to_string(), "t".to_string());
    let req = reporter.prepare(&vec![span("idle", vec![])]).unwrap().unwrap();
    assert_eq!(req.body, vec![0x90]);
    assert_eq!(req.url, "u");
}

#[test]
fn level_property_resolves_level() {
    let e = event("e", &[("level", "WARN"), ("other", "x")]);
    assert_eq!(event_level(&e), "WARN");
    let e = event("e", &[("other", "x")]);
    assert_eq!(event_level(&e), "INFO");
    let e = event("e", &[("other", "x"), ("level", "ERROR"), ("level", "TRACE")]);
    assert_eq!(event_level(&e), "ERROR");
    let e = event("e", &[("Level", "WARN")]);
    assert_eq!(event_level(&e), "INFO");
}

#[test]
fn encoded_messages_decode_field_for_field() {
    let messages = vec![
        BetterstackMessage {
            source: "s1".to_string(),
            message: "héllo wörld".to_string(),
            level: "INFO".to_string(),
            diagnostics: None,
        },
        BetterstackMessage {
            source: "s2".to_string(),
            message: "x".repeat(300),
            level: "ERROR".to_string(),
            diagnostics: Some("[d]".to_string()),
        },
    ];
    let bytes = encode_messages(&messages).unwrap();
    let decoded = decode(&bytes);
    assert_eq!(decoded.len(), 2);
    for (m, d) in messages.iter().zip(decoded.iter()) {
        assert_eq!(d["source"], m.source);
        assert_eq!(d["message"], m.message);
        assert_eq!(d["level"], m.level);
        assert_eq!(d.get("diagnostics"), m.diagnostics.as_ref());
    }
}

#[test]
fn string_and_array_headers_by_size() {
    let mk = |msg: String| BetterstackSpan { source: "s".to_string(), message: msg, level: "INFO".to_string() };
    // str8
    let bytes = encode_spans(&vec![mk("y".repeat(40))]).unwrap();
    let mut expected = vec![0x91, 0x83];
    msgpack_str(&mut expected, "source");
    msgpack_str(&mut expected, "s");
    msgpack_str(&mut expected, "message");
    expected.extend_from_slice(&[0xd9, 40]);
    expected.extend_from_slice("y".repeat(40).as_bytes());
    msgpack_str(&mut expected, "level");
    msgpack_str(&mut expected, "INFO");
    assert_eq!(bytes, expected);
    // str16 and str32
    let bytes = encode_spans(&vec![mk("z".repeat(70000))]).unwrap();
    assert_eq!(decode(&bytes)[0]["message"].len(), 70000);
    let bytes = encode_spans(&vec![mk("z".repeat(300))]).unwrap();
    assert!(bytes.windows(3).any(|w| w == [0xda, 0x01, 0x2c]));
    // array16
    let many: Vec<BetterstackSpan> = (0..20).map(|i| mk(format!("m{}", i))).collect();
    let bytes = encode_spans(&many).unwrap();
    assert_eq!(&bytes[..3], &[0xdc, 0, 20]);
    let decoded = decode(&bytes);
    assert_eq!(decoded.len(), 20);
    assert_eq!(decoded[19]["message"], "m19");
}

#[test]
fn non_success_status_is_delivery_error() {
    match classify_response(401, Some("unauthorized".to_string())) {
        Err(PipelineError::DeliveryStatus { status, body }) => {
            assert_eq!(status, 401);
            assert_eq!(body, "unauthorized");
        }
        other => panic!("unexpected {:?}", other),
    }
    match classify_response(500, None) {
        Err(PipelineError::DeliveryStatus { status, body }) => {
            assert_eq!(status, 500);
            assert_eq!(body, "<empty>");
        }
        other => panic!("unexpected {:?}", other),
    }
    assert!(classify_response(200, None).is_ok());
    assert!(classify_response(299, Some(String::new())).is_ok());
    assert!(classify_response(300, None).is_err());
    assert!(classify_response(199, None).is_err());
}

#[test]
fn invalid_token_is_header_error() {
    assert!(matches!(get_headers("a\nb"), Err(PipelineError::HeaderConstruction)));
    assert!(matches!(get_headers("a\u{7f}"), Err(PipelineError::HeaderConstruction)));
    let h = get_headers("tab\tand ünïcode").unwrap();
    assert_eq!(h.authorization, "Bearer tab\tand ünïcode");
    assert_eq!(h.content_type, "application/msgpack");
    let appender = BetterStackAppender::new("u".to_string(), "bad\r\n".to_string(), "s".to_string());
    assert!(matches!(
        appender.prepare(&record(Level::Info, "m"), &vec![]),
        Err(PipelineError::HeaderConstruction)
    ));
}

#[test]
fn one_error_log_call_makes_one_array_request() {
    let appender =
        BetterStackAppender::new("https://in.example/".to_string(), "tok123".to_string(), "svc-a".to_string());
    let req = appender.prepare(&record(Level::Error, "boom"), &vec![]).unwrap();
    let mut expected = vec![0x91, 0x83];
    for s in ["source", "svc-a", "message", "boom", "level", "ERROR"] {
        msgpack_str(&mut expected, s);
    }
    assert_eq!(req.body, expected);
    assert_eq!(req.url, "https://in.example/");
    assert_eq!(req.headers.authorization, "Bearer tok123");
    assert_eq!(req.headers.content_type, "application/msgpack");
    assert_eq!(authorization_value("tok123"), "Bearer tok123");
    assert_eq!(decode(&req.body), vec![entry(&[("source", "svc-a"), ("message", "boom"), ("level", "ERROR")])]);
}
